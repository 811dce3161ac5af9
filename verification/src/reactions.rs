//! The reactions to the parts of a message.

use std::collections::HashMap;

use vstd::prelude::*;

#[allow(unused_imports)]
use crate::attachments::attachment_piece;
use crate::attachments::{Flow, Outcome, Piece};
#[allow(unused_imports)]
use crate::html::{line, Config};
use crate::html::HTML;
use crate::records::{Mark, Record, Response};
use crate::text::enclosed;

verus! {

/// What stands for a sticker whose image cannot be shown.
pub open spec fn lost_sticker() -> Seq<char> {
    "<span class=\"reaction\">Sticker not found!</span>"@
}

/// How far a reaction is rendered. One that was taken back is nothing.
pub open spec fn response_flow(
    config: Config,
    response: Response,
    outcomes: Seq<Outcome>,
    used: nat,
) -> Flow<(Seq<char>, nat), Seq<char>> {
    match response.mark {
        Mark::Reaction(added, label) => if added {
            Flow::Go(
                (
                    "<span class=\"reaction\"><b>"@ + label@ + "</b> by "@
                        + response.sender@ + "</span>"@,
                    used,
                ),
            )
        } else {
            Flow::Go((Seq::empty(), used))
        },
        Mark::Sticker(Err(why)) => Flow::Failed(why@),
        Mark::Sticker(Ok(attachments)) => if attachments@.len() == 0 {
            Flow::Go((lost_sticker(), used))
        } else {
            let (piece, used) = attachment_piece(config, attachments@[0], outcomes, used);
            match piece {
                Piece::Html(image) => Flow::Go(
                    (
                        image + "<span class=\"reaction\"> from "@ + response.sender@
                            + "</span>"@,
                        used,
                    ),
                ),
                Piece::Lost(_) => Flow::Go((lost_sticker(), used)),
                Piece::Wanted(transfer) => Flow::Wanted(transfer),
            }
        },
    }
}

/// How far reactions are rendered, one after the other.
pub open spec fn responses_flow(
    config: Config,
    responses: Seq<Response>,
    outcomes: Seq<Outcome>,
    used: nat,
) -> Flow<(Seq<char>, nat), Seq<char>>
    decreases responses.len(),
{
    if responses.len() == 0 {
        Flow::Go((Seq::empty(), used))
    } else {
        match responses_flow(config, responses.drop_last(), outcomes, used) {
            Flow::Go((html, used)) => match response_flow(
                config,
                responses.last(),
                outcomes,
                used,
            ) {
                Flow::Go((shown, used)) => Flow::Go(
                    (html + line(shown, "<div class=\"reaction\">"@, "</div>"@), used),
                ),
                stop => stop,
            },
            stop => stop,
        }
    }
}

/// How far the reactions to part number `part` are rendered: nothing where there is none.
pub open spec fn reactions_flow(
    config: Config,
    record: Record,
    part: int,
    outcomes: Seq<Outcome>,
    used: nat,
) -> Flow<(Seq<char>, nat), Seq<char>> {
    let reactions = record.reactions->Ok_0@;
    if part <= usize::MAX && reactions.contains_key(part as usize) {
        match responses_flow(config, reactions[part as usize]@, outcomes, used) {
            Flow::Go((html, used)) => Flow::Go(
                (
                    line("<hr><p>Reactions:</p>"@, "<div class=\"reactions\">"@, ""@) + html
                        + line("</div>"@, ""@, ""@),
                    used,
                ),
            ),
            stop => stop,
        }
    } else {
        Flow::Go((Seq::empty(), used))
    }
}

/// Where the rendering of reactions stops, it goes no further.
proof fn lemma_responses_stop(
    config: Config,
    responses: Seq<Response>,
    count: int,
    outcomes: Seq<Outcome>,
    used: nat,
)
    requires
        0 <= count <= responses.len(),
        !(responses_flow(config, responses.take(count), outcomes, used) is Go),
    ensures
        responses_flow(config, responses, outcomes, used) == responses_flow(
            config,
            responses.take(count),
            outcomes,
            used,
        ),
    decreases responses.len() - count,
{
    if count < responses.len() {
        assert(responses.take(count + 1).drop_last() == responses.take(count));
        lemma_responses_stop(config, responses, count + 1, outcomes, used);
    } else {
        assert(responses.take(count) == responses);
    }
}

impl<'a> HTML<'a> {
    /// Renders a reaction, as far as the outcomes from number `used` on allow.
    pub fn format_reaction(
        &self,
        response: &Response,
        outcomes: &Vec<Outcome>,
        used: usize,
    ) -> (result: Flow<(String, usize), String>)
        requires
            used <= outcomes.len(),
        ensures
            result@ == response_flow(*self.config, *response, outcomes@, used as nat),
    {
        match &response.mark {
            Mark::Reaction(added, label) => {
                if !*added {
                    return Flow::Go((String::new(), used));
                }
                let html = enclosed("<span class=\"reaction\"><b>", label.as_str(), "</b> by ");
                Flow::Go((html.concat(response.sender.as_str()).concat("</span>"), used))
            },
            Mark::Sticker(Err(why)) => Flow::Failed(why.clone()),
            Mark::Sticker(Ok(attachments)) => {
                let lost = "<span class=\"reaction\">Sticker not found!</span>";
                if attachments.len() == 0 {
                    return Flow::Go((lost.to_owned(), used));
                }
                let mut sticker = attachments[0].duplicate();
                match self.format_attachment(&mut sticker, outcomes, used) {
                    (Piece::Html(image), used) => {
                        let html = image.concat("<span class=\"reaction\"> from ");
                        Flow::Go((html.concat(response.sender.as_str()).concat("</span>"), used))
                    },
                    (Piece::Lost(_), used) => Flow::Go((lost.to_owned(), used)),
                    (Piece::Wanted(transfer), _) => Flow::Wanted(transfer),
                }
            },
        }
    }

    /// Renders reactions, one after the other, as far as the outcomes from number `used` on allow.
    fn format_responses(
        &self,
        responses: &Vec<Response>,
        outcomes: &Vec<Outcome>,
        used: usize,
    ) -> (result: Flow<(String, usize), String>)
        requires
            used <= outcomes.len(),
        ensures
            result@ == responses_flow(*self.config, responses@, outcomes@, used as nat),
            result matches Flow::Go((_, used)) ==> used <= outcomes.len(),
    {
        let mut out = String::new();
        let mut next: usize = used;
        let mut at: usize = 0;
        assert(responses@.take(0) == Seq::<Response>::empty());
        while at < responses.len()
            invariant
                at <= responses.len(),
                next <= outcomes.len(),
                responses_flow(*self.config, responses@.take(at as int), outcomes@, used as nat)
                    == Flow::<(Seq<char>, nat), Seq<char>>::Go((out@, next as nat)),
            decreases responses.len() - at,
        {
            let result = self.format_reaction(&responses[at], outcomes, next);
            proof {
                assert(responses@.take(at + 1).drop_last() == responses@.take(at as int));
                if !(result is Go) {
                    lemma_responses_stop(
                        *self.config,
                        responses@,
                        at + 1,
                        outcomes@,
                        used as nat,
                    );
                }
            }
            match result {
                Flow::Go((html, after)) => {
                    self.add_line(&mut out, html.as_str(), "<div class=\"reaction\">", "</div>");
                    next = after;
                },
                stop => {
                    return stop;
                },
            }
            at = at + 1;
        }
        assert(responses@.take(at as int) == responses@);
        Flow::Go((out, next))
    }

    /// Renders the reactions to part number `part`, as far as the outcomes from number `used` on
    /// allow.
    pub(crate) fn format_reactions(
        &self,
        record: &Record,
        reactions: &HashMap<usize, Vec<Response>>,
        part: usize,
        outcomes: &Vec<Outcome>,
        used: usize,
    ) -> (result: Flow<(String, usize), String>)
        requires
            used <= outcomes.len(),
            record.reactions == Ok::<HashMap<usize, Vec<Response>>, String>(*reactions),
        ensures
            result@ == reactions_flow(
                *self.config,
                *record,
                part as int,
                outcomes@,
                used as nat,
            ),
            result matches Flow::Go((_, used)) ==> used <= outcomes.len(),
    {
        broadcast use vstd::std_specs::hash::group_hash_axioms;

        let responses = match reactions.get(&part) {
            Some(responses) => responses,
            None => {
                return Flow::Go((String::new(), used));
            },
        };
        match self.format_responses(responses, outcomes, used) {
            Flow::Go((shown, used)) => {
                let mut out = String::new();
                self.add_line(&mut out, "<hr><p>Reactions:</p>", "<div class=\"reactions\">", "");
                out.append(shown.as_str());
                self.add_line(&mut out, "</div>", "", "");
                Flow::Go((out, used))
            },
            stop => stop,
        }
    }
}

} // verus!
