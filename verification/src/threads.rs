//! What is shown below a part of a message: every reaction to it, and every reply.

use vstd::prelude::*;

#[allow(unused_imports)]
use crate::attachments::{attachment_piece, Flow, Outcome, Piece};
#[allow(unused_imports)]
use crate::excerpts::{
    holds, holds_in_order, lemma_block_end, lemma_holds, lemma_line, lemma_order, listed_between,
    total,
};
#[allow(unused_imports)]
use crate::html::{line, Config};
#[allow(unused_imports)]
use crate::laws::{is_taken_back, law_messages_are_blocks};
#[allow(unused_imports)]
use crate::messages::{is_reaction, message_flow, replies_flow, thread_flow};
#[allow(unused_imports)]
use crate::reactions::{reactions_flow, response_flow, responses_flow};
#[allow(unused_imports)]
use crate::records::{Mark, Record, Response};
#[allow(unused_imports)]
use crate::text::{begins_with, ends_with};

verus! {

/// What was rendered, with what is rendered from there on behind it. Where the one or the other
/// stops, both do.
pub open spec fn followed(
    first: Flow<(Seq<char>, nat), Seq<char>>,
    second: spec_fn(nat) -> Flow<(Seq<char>, nat), Seq<char>>,
) -> Flow<(Seq<char>, nat), Seq<char>> {
    match first {
        Flow::Go((html, used)) => match second(used) {
            Flow::Go((more, after)) => Flow::Go((html + more, after)),
            stop => stop,
        },
        stop => stop,
    }
}

/// What was rendered, between `pre` and `post`. Where the rendering stops, it stops.
pub open spec fn wrapped(
    flow: Flow<(Seq<char>, nat), Seq<char>>,
    pre: Seq<char>,
    post: Seq<char>,
) -> Flow<(Seq<char>, nat), Seq<char>> {
    match flow {
        Flow::Go((html, used)) => Flow::Go((pre + html + post, used)),
        stop => stop,
    }
}

/// The reactions to a part are shown one behind the other: no reaction hides or changes another.
pub proof fn law_reactions_add_up(
    config: Config,
    first: Seq<Response>,
    second: Seq<Response>,
    outcomes: Seq<Outcome>,
    used: nat,
)
    ensures
        responses_flow(config, first + second, outcomes, used) == followed(
            responses_flow(config, first, outcomes, used),
            |from: nat| responses_flow(config, second, outcomes, from),
        ),
    decreases second.len(),
{
    let both = first + second;
    if second.len() == 0 {
        assert(both == first);
        if let Flow::Go((html, _)) = responses_flow(config, first, outcomes, used) {
            assert(html + Seq::<char>::empty() == html);
        }
    } else {
        law_reactions_add_up(config, first, second.drop_last(), outcomes, used);
        assert(both.drop_last() == first + second.drop_last());
        assert(both.last() == second.last());
        if let Flow::Go((html, from)) = responses_flow(config, first, outcomes, used) {
            if let Flow::Go((more, after)) = responses_flow(
                config,
                second.drop_last(),
                outcomes,
                from,
            ) {
                if let Flow::Go((shown, _)) = response_flow(
                    config,
                    second.last(),
                    outcomes,
                    after,
                ) {
                    let last = line(shown, "<div class=\"reaction\">"@, "</div>"@);
                    assert(html + more + last == html + (more + last));
                }
            }
        }
    }
}

/// What is rendered of a reaction that was not taken back is not empty.
proof fn lemma_reactions_are_not_empty(
    config: Config,
    response: Response,
    outcomes: Seq<Outcome>,
    used: nat,
)
    requires
        !is_taken_back(response),
    ensures
        response_flow(config, response, outcomes, used) matches Flow::Go((html, _)) ==> html.len()
            > 0,
{
    reveal_strlit("</span>");
    reveal_strlit("<span class=\"reaction\">Sticker not found!</span>");
}

/// A reaction on its own is one line, and one that was taken back is nothing.
pub proof fn law_a_reaction_is_a_line(
    config: Config,
    response: Response,
    outcomes: Seq<Outcome>,
    used: nat,
)
    ensures
        responses_flow(config, seq![response], outcomes, used) == (if response.mark
            matches Mark::Reaction(added, _) && !added {
            Flow::<(Seq<char>, nat), Seq<char>>::Go((Seq::empty(), used))
        } else {
            wrapped(
                response_flow(config, response, outcomes, used),
                "<div class=\"reaction\">"@,
                "</div>\n"@,
            )
        }),
{
    reveal_with_fuel(responses_flow, 2);
    assert(seq![response].drop_last() == Seq::<Response>::empty());
    assert(seq![response].last() == response);
    lemma_block_end();
    if let Flow::Go((shown, _)) = response_flow(config, response, outcomes, used) {
        lemma_line(shown, "<div class=\"reaction\">"@, "</div>"@);
        if !is_taken_back(response) {
            lemma_reactions_are_not_empty(config, response, outcomes, used);
        }
        let last = line(shown, "<div class=\"reaction\">"@, "</div>"@);
        assert(Seq::<char>::empty() + last == last);
    }
}

/// There is one line for each reaction that was not taken back, and nothing else.
pub proof fn law_reactions_have_a_line_each(
    config: Config,
    responses: Seq<Response>,
    outcomes: Seq<Outcome>,
    used: nat,
)
    ensures
        responses_flow(config, responses, outcomes, used) matches Flow::Go((html, _)) ==> exists|
            shown: Seq<Seq<char>>,
        |
            shown.len() == responses.filter(|response: Response| !is_taken_back(response)).len()
                && html == #[trigger] listed_between(
                shown,
                "<div class=\"reaction\">"@,
                "</div>\n"@,
            ),
    decreases responses.len(),
{
    reveal(Seq::filter);
    let pre = "<div class=\"reaction\">"@;
    let post = "</div>\n"@;
    let kept = |response: Response| !is_taken_back(response);
    if let Flow::Go((html, _)) = responses_flow(config, responses, outcomes, used) {
        if responses.len() == 0 {
            assert(html == listed_between(Seq::empty(), pre, post));
        } else {
            law_reactions_have_a_line_each(config, responses.drop_last(), outcomes, used);
            let (before, from) = responses_flow(
                config,
                responses.drop_last(),
                outcomes,
                used,
            )->Go_0;
            let shown = choose|shown: Seq<Seq<char>>|
                shown.len() == responses.drop_last().filter(kept).len() && before
                    == #[trigger] listed_between(shown, pre, post);
            let (own, _) = response_flow(config, responses.last(), outcomes, from)->Go_0;
            lemma_line(own, pre, "</div>"@);
            lemma_block_end();
            if is_taken_back(responses.last()) {
                assert(html == before);
                assert(html == listed_between(shown, pre, post));
            } else {
                lemma_reactions_are_not_empty(config, responses.last(), outcomes, from);
                let all = shown.push(own);
                assert(all.drop_last() == shown);
                assert(before + (pre + own + post) == before + pre + own + post);
                assert(html == listed_between(all, pre, post));
            }
        }
    }
}

/// Every reaction that was not taken back is shown, with what it says on its own.
pub proof fn law_every_reaction_is_shown(
    config: Config,
    responses: Seq<Response>,
    at: int,
    outcomes: Seq<Outcome>,
    used: nat,
)
    requires
        0 <= at < responses.len(),
        !is_taken_back(responses[at]),
    ensures
        responses_flow(config, responses, outcomes, used) matches Flow::Go((html, _)) ==> exists|
            from: nat,
        |
            (#[trigger] response_flow(config, responses[at], outcomes, from)) matches Flow::Go(
                (shown, _),
            ) && holds(html, "<div class=\"reaction\">"@ + shown + "</div>\n"@),
{
    let first = responses.take(at);
    let one = seq![responses[at]];
    let rest = responses.skip(at + 1);
    assert(responses == first + one + rest);
    law_reactions_add_up(config, first + one, rest, outcomes, used);
    law_reactions_add_up(config, first, one, outcomes, used);
    if let Flow::Go((html, _)) = responses_flow(config, responses, outcomes, used) {
        let (before, from) = responses_flow(config, first, outcomes, used)->Go_0;
        law_a_reaction_is_a_line(config, responses[at], outcomes, from);
        let (own, after) = responses_flow(config, one, outcomes, from)->Go_0;
        let (behind, _) = responses_flow(config, rest, outcomes, after)->Go_0;
        assert(html == before + own + behind);
        lemma_holds(before, own, behind);
        assert(response_flow(config, responses[at], outcomes, from) is Go);
    }
}

/// A reaction tells what is said of the message, and then by whom; and nothing else does it depend
/// on.
pub proof fn law_reactions_tell_what_and_who(
    config: Config,
    response: Response,
    outcomes: Seq<Outcome>,
    used: nat,
)
    requires
        response.mark is Reaction,
        response.mark->Reaction_0,
    ensures
        response_flow(config, response, outcomes, used) matches Flow::Go((html, after)) && {
            let pieces = seq![
                "<span class=\"reaction\">"@,
                "<b>"@ + response.mark->Reaction_1@ + "</b>"@,
                " by "@ + response.sender@,
                "</span>"@,
            ];
            &&& after == used
            &&& holds_in_order(html, pieces)
            &&& html.len() == total(pieces)
        },
{
    reveal_strlit("<span class=\"reaction\">");
    reveal_strlit("<b>");
    reveal_strlit("</b>");
    reveal_strlit(" by ");
    reveal_strlit("</b> by ");
    reveal_strlit("<span class=\"reaction\"><b>");
    let label = response.mark->Reaction_1@;
    let who = response.sender@;
    let none = Seq::<char>::empty();
    let start = "<span class=\"reaction\">"@;
    let what = "<b>"@ + label + "</b>"@;
    let whom = " by "@ + who;
    let end = "</span>"@;
    let pieces = seq![start, what, whom, end];
    let html = "<span class=\"reaction\"><b>"@ + label + "</b> by "@ + who + end;
    assert("<span class=\"reaction\"><b>"@ == start + "<b>"@);
    assert("</b> by "@ == "</b>"@ + " by "@);
    reveal_with_fuel(total, 5);
    reveal_with_fuel(holds_in_order, 2);
    assert(pieces.skip(1) == seq![what, whom, end]);
    assert(pieces.skip(1).skip(1) == seq![whom, end]);
    assert(pieces.skip(1).skip(1).skip(1) == seq![end]);
    assert(pieces.skip(1).skip(1).skip(1).skip(1).len() == 0);
    assert(html == none + start + (none + what + (none + whom + (none + end + none))));
    lemma_order(none, end, none, seq![end]);
    lemma_order(none, whom, none + end + none, seq![whom, end]);
    lemma_order(none, what, none + whom + (none + end + none), seq![what, whom, end]);
    lemma_order(none, start, none + what + (none + whom + (none + end + none)), pieces);
}

/// A sticker is shown as its first image, with who sent it behind it. Where no image can be shown,
/// the page says so; where the images could not be loaded, the rendering fails for that reason.
pub proof fn law_stickers_are_shown_with_their_sender(
    config: Config,
    response: Response,
    outcomes: Seq<Outcome>,
    used: nat,
)
    requires
        response.mark is Sticker,
    ensures
        match response.mark->Sticker_0 {
            Err(why) => response_flow(config, response, outcomes, used) == Flow::<
                (Seq<char>, nat),
                Seq<char>,
            >::Failed(why@),
            Ok(images) => if images@.len() == 0 {
                response_flow(config, response, outcomes, used) == Flow::<
                    (Seq<char>, nat),
                    Seq<char>,
                >::Go(("<span class=\"reaction\">Sticker not found!</span>"@, used))
            } else {
                let (piece, after) = attachment_piece(config, images@[0], outcomes, used);
                match (piece, response_flow(config, response, outcomes, used)) {
                    (Piece::Html(image), Flow::Go((html, then_used))) => {
                        let sender = "<span class=\"reaction\"> from "@ + response.sender@
                            + "</span>"@;
                        &&& then_used == after
                        &&& begins_with(html, image)
                        &&& ends_with(html, sender)
                        &&& html.len() == image.len() + sender.len()
                    },
                    (Piece::Lost(_), Flow::Go((html, then_used))) => then_used == after && html
                        == "<span class=\"reaction\">Sticker not found!</span>"@,
                    (Piece::Wanted(wanted), Flow::Wanted(transfer)) => wanted == transfer,
                    _ => false,
                }
            },
        },
{
    if let Mark::Sticker(Ok(images)) = response.mark {
        if images@.len() > 0 {
            let (piece, _) = attachment_piece(config, images@[0], outcomes, used);
            if let Piece::Html(image) = piece {
                let sender = "<span class=\"reaction\"> from "@ + response.sender@ + "</span>"@;
                let html = image + "<span class=\"reaction\"> from "@ + response.sender@
                    + "</span>"@;
                assert(html == image + sender);
                assert(html.take(image.len() as int) == image);
                assert(html.skip(html.len() - sender.len()) == sender);
            }
        }
    }
}

/// The reactions to a part stand together in one block, which is there only where the part has
/// some.
pub proof fn law_reactions_are_a_block(
    config: Config,
    record: Record,
    part: usize,
    outcomes: Seq<Outcome>,
    used: nat,
)
    requires
        record.reactions is Ok,
    ensures
        reactions_flow(config, record, part as int, outcomes, used) == (
        if record.reactions->Ok_0@.contains_key(part) {
            wrapped(
                responses_flow(config, record.reactions->Ok_0@[part]@, outcomes, used),
                "<div class=\"reactions\"><hr><p>Reactions:</p>\n"@,
                "</div>\n"@,
            )
        } else {
            Flow::<(Seq<char>, nat), Seq<char>>::Go((Seq::empty(), used))
        }),
{
    reveal_strlit("");
    reveal_strlit("<hr><p>Reactions:</p>");
    reveal_strlit("<div class=\"reactions\">");
    reveal_strlit("<div class=\"reactions\"><hr><p>Reactions:</p>\n");
    reveal_strlit("\n");
    lemma_block_end();
    lemma_line("<hr><p>Reactions:</p>"@, "<div class=\"reactions\">"@, ""@);
    assert(line("<hr><p>Reactions:</p>"@, "<div class=\"reactions\">"@, ""@)
        == "<div class=\"reactions\"><hr><p>Reactions:</p>\n"@);
}

/// Replies are shown one behind the other: no reply hides or changes another.
pub proof fn law_replies_add_up(
    config: Config,
    first: Seq<Record>,
    second: Seq<Record>,
    outcomes: Seq<Outcome>,
    used: nat,
)
    ensures
        thread_flow(config, first + second, outcomes, used) == followed(
            thread_flow(config, first, outcomes, used),
            |from: nat| thread_flow(config, second, outcomes, from),
        ),
    decreases second.len(),
{
    let both = first + second;
    if second.len() == 0 {
        assert(both == first);
        if let Flow::Go((html, _)) = thread_flow(config, first, outcomes, used) {
            assert(html + Seq::<char>::empty() == html);
        }
    } else {
        law_replies_add_up(config, first, second.drop_last(), outcomes, used);
        assert(both.drop_last() == first + second.drop_last());
        assert(both.last() == second.last());
        if let Flow::Go((html, from)) = thread_flow(config, first, outcomes, used) {
            if let Flow::Go((more, after)) = thread_flow(
                config,
                second.drop_last(),
                outcomes,
                from,
            ) {
                if let Flow::Go((shown, _)) = message_flow(
                    config,
                    second.last(),
                    1,
                    outcomes,
                    after,
                ) {
                    let last = line(shown, "<div class=\"reply\">"@, "</div>"@);
                    assert(html + more + last == html + (more + last));
                }
            }
        }
    }
}

/// What is rendered of a message is not empty.
proof fn lemma_messages_are_not_empty(
    config: Config,
    record: Record,
    indent: nat,
    outcomes: Seq<Outcome>,
    used: nat,
)
    ensures
        message_flow(config, record, indent, outcomes, used) matches Flow::Go((html, _))
            ==> html.len() > 0,
{
    law_messages_are_blocks(config, record, indent, outcomes, used);
    reveal_strlit("</div>");
}

/// A reply on its own is one line, which holds the message that the reply is; a reaction is
/// nothing.
pub proof fn law_a_reply_is_a_line(
    config: Config,
    reply: Record,
    outcomes: Seq<Outcome>,
    used: nat,
)
    ensures
        thread_flow(config, seq![reply], outcomes, used) == (if reply.variant is Reaction || (
        reply.variant is Sticker && reply.message.associated_message_guid is Some) {
            Flow::<(Seq<char>, nat), Seq<char>>::Go((Seq::empty(), used))
        } else {
            wrapped(
                message_flow(config, reply, 1, outcomes, used),
                "<div class=\"reply\">"@,
                "</div>\n"@,
            )
        }),
{
    reveal_with_fuel(thread_flow, 2);
    assert(seq![reply].drop_last() == Seq::<Record>::empty());
    assert(seq![reply].last() == reply);
    lemma_block_end();
    lemma_messages_are_not_empty(config, reply, 1, outcomes, used);
    if let Flow::Go((shown, _)) = message_flow(config, reply, 1, outcomes, used) {
        lemma_line(shown, "<div class=\"reply\">"@, "</div>"@);
        let last = line(shown, "<div class=\"reply\">"@, "</div>"@);
        assert(Seq::<char>::empty() + last == last);
    }
}

/// There is one line for each reply that is no reaction, and nothing else.
#[verifier::rlimit(30)]
pub proof fn law_replies_have_a_line_each(
    config: Config,
    replies: Seq<Record>,
    outcomes: Seq<Outcome>,
    used: nat,
)
    ensures
        thread_flow(config, replies, outcomes, used) matches Flow::Go((html, _)) ==> exists|
            shown: Seq<Seq<char>>,
        |
            shown.len() == replies.filter(|reply: Record| !is_reaction(reply)).len() && html
                == #[trigger] listed_between(shown, "<div class=\"reply\">"@, "</div>\n"@),
    decreases replies.len(),
{
    reveal(Seq::filter);
    let pre = "<div class=\"reply\">"@;
    let post = "</div>\n"@;
    let kept = |reply: Record| !is_reaction(reply);
    if let Flow::Go((html, _)) = thread_flow(config, replies, outcomes, used) {
        if replies.len() == 0 {
            assert(html == listed_between(Seq::empty(), pre, post));
        } else {
            law_replies_have_a_line_each(config, replies.drop_last(), outcomes, used);
            let (before, from) = thread_flow(config, replies.drop_last(), outcomes, used)->Go_0;
            let shown = choose|shown: Seq<Seq<char>>|
                shown.len() == replies.drop_last().filter(kept).len() && before
                    == #[trigger] listed_between(shown, pre, post);
            if is_reaction(replies.last()) {
                assert(html == before);
                assert(html == listed_between(shown, pre, post));
            } else {
                let (own, _) = message_flow(config, replies.last(), 1, outcomes, from)->Go_0;
                lemma_line(own, pre, "</div>"@);
                lemma_block_end();
                lemma_messages_are_not_empty(config, replies.last(), 1, outcomes, from);
                let all = shown.push(own);
                assert(all.drop_last() == shown);
                assert(before + (pre + own + post) == before + pre + own + post);
                assert(html == listed_between(all, pre, post));
            }
        }
    }
}

/// Every reply that is no reaction is shown below the message, as the message that it is.
pub proof fn law_every_reply_is_shown(
    config: Config,
    replies: Seq<Record>,
    at: int,
    outcomes: Seq<Outcome>,
    used: nat,
)
    requires
        0 <= at < replies.len(),
        !is_reaction(replies[at]),
    ensures
        thread_flow(config, replies, outcomes, used) matches Flow::Go((html, _)) ==> exists|
            from: nat,
        |
            (#[trigger] message_flow(config, replies[at], 1, outcomes, from)) matches Flow::Go(
                (shown, _),
            ) && holds(html, "<div class=\"reply\">"@ + shown + "</div>\n"@),
{
    let first = replies.take(at);
    let one = seq![replies[at]];
    let rest = replies.skip(at + 1);
    assert(replies == first + one + rest);
    law_replies_add_up(config, first + one, rest, outcomes, used);
    law_replies_add_up(config, first, one, outcomes, used);
    if let Flow::Go((html, _)) = thread_flow(config, replies, outcomes, used) {
        let (before, from) = thread_flow(config, first, outcomes, used)->Go_0;
        law_a_reply_is_a_line(config, replies[at], outcomes, from);
        let (own, after) = thread_flow(config, one, outcomes, from)->Go_0;
        let (behind, _) = thread_flow(config, rest, outcomes, after)->Go_0;
        assert(html == before + own + behind);
        lemma_holds(before, own, behind);
        assert(message_flow(config, replies[at], 1, outcomes, from) is Go);
    }
}

/// The replies to a part stand together in one block, which is there only where the part has some.
pub proof fn law_replies_are_a_block(
    config: Config,
    record: Record,
    part: usize,
    outcomes: Seq<Outcome>,
    used: nat,
)
    requires
        record.replies is Ok,
    ensures
        replies_flow(config, record, part as int, outcomes, used) == (
        if record.replies->Ok_0@.contains_key(part) {
            wrapped(
                thread_flow(config, record.replies->Ok_0@[part]@, outcomes, used),
                "<div class=\"replies\">\n"@,
                "</div>\n"@,
            )
        } else {
            Flow::<(Seq<char>, nat), Seq<char>>::Go((Seq::empty(), used))
        }),
{
    reveal_strlit("");
    reveal_strlit("<div class=\"replies\">");
    reveal_strlit("<div class=\"replies\">\n");
    reveal_strlit("\n");
    lemma_block_end();
    lemma_line("<div class=\"replies\">"@, ""@, ""@);
    assert(line("<div class=\"replies\">"@, ""@, ""@) == "<div class=\"replies\">\n"@);
}

} // verus!
