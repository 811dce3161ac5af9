//! Messages, with their parts and the replies to them.

use std::collections::HashMap;

use vstd::prelude::*;

#[allow(unused_imports)]
use crate::apps::{app_bubble, is_after_app};
#[allow(unused_imports)]
use crate::attachments::{are_alike, attachment_piece, is_copied};
use crate::attachments::{duplicate_all, Flow, Outcome, Piece};
#[allow(unused_imports)]
use crate::balloons::{app_picture, error_text};
use crate::balloons::Bubble;
use crate::captions::stamp;
#[allow(unused_imports)]
use crate::captions::{effect_text, stamp_text};
#[allow(unused_imports)]
use crate::html::{line, Config};
use crate::html::HTML;
#[allow(unused_imports)]
use crate::reactions::reactions_flow;
use crate::records::{Record, Response};
use crate::tables::{Attachment, BubbleType, CustomBalloon, Variant, FITNESS_RECEIVER};
#[allow(unused_imports)]
use crate::text::{begins_with, optional, replaced};
use crate::text::{enclosed, replace, starts_with};

verus! {

/// Whether a message is a reaction to another one.
pub open spec fn is_reaction(record: Record) -> bool {
    record.variant is Reaction || (record.variant is Sticker
        && record.message.associated_message_guid is Some)
}

/// What a text of a message shows: a fitness message speaks of the reader.
pub open spec fn bubble_text(text: Seq<char>) -> Seq<char> {
    if begins_with(text, FITNESS_RECEIVER@) {
        replaced(text, FITNESS_RECEIVER@, "You"@)
    } else {
        text
    }
}

/// How far a part of a message is rendered; with the number of the attachment that the next part
/// shows, and of the next outcome. The attachments are shown in their order; one that is lost
/// keeps its turn.
pub open spec fn content_flow(
    config: Config,
    record: Record,
    attachments: Seq<Attachment>,
    part: BubbleType<Seq<char>>,
    next: nat,
    outcomes: Seq<Outcome>,
    used: nat,
) -> Flow<(Seq<char>, nat, nat), Seq<char>> {
    match part {
        BubbleType::Text(text) => Flow::Go(
            (line(bubble_text(text), "<span class=\"bubble\">"@, "</span>"@), next, used),
        ),
        BubbleType::Attachment => if next >= attachments.len() {
            Flow::Go((line("Attachment does not exist!"@, ""@, ""@), next, used))
        } else {
            let (piece, used) = attachment_piece(config, attachments[next as int], outcomes, used);
            match piece {
                Piece::Html(html) => Flow::Go((line(html, ""@, ""@), next + 1, used)),
                Piece::Lost(name) => Flow::Go(
                    (
                        line(
                            name,
                            "<span class=\"attachment_error\">Unable to locate attachment: "@,
                            "</span>"@,
                        ),
                        next,
                        used,
                    ),
                ),
                Piece::Wanted(transfer) => Flow::Wanted(transfer),
            }
        },
        BubbleType::App => {
            let (bubble, used) = app_bubble(config, record, attachments, outcomes, used);
            match bubble {
                Bubble::Html(html) => Flow::Go(
                    (line(html, "<div class=\"app\">"@, "</div>"@), next, used),
                ),
                Bubble::Error(why) => Flow::Go(
                    (
                        line(
                            "Unable to format app message: "@ + error_text(why),
                            "<div class=\"app_error\">"@,
                            "</div>"@,
                        ),
                        next,
                        used,
                    ),
                ),
                Bubble::Wanted(transfer) => Flow::Wanted(transfer),
            }
        },
    }
}

/// The line that tells of the effect that a message was sent with: nothing where it has none.
pub open spec fn effect_line(record: Record) -> Seq<char> {
    if record.message.expressive_send_style_id is Some {
        line(effect_text(record.effect@), "<span class=\"expressive\">"@, "</span>"@)
    } else {
        Seq::empty()
    }
}

/// How far replies are rendered, one after the other. Those that are reactions are left out.
pub open spec fn thread_flow(
    config: Config,
    replies: Seq<Record>,
    outcomes: Seq<Outcome>,
    used: nat,
) -> Flow<(Seq<char>, nat), Seq<char>>
    decreases replies, 0int, 0int,
{
    if replies.len() == 0 {
        Flow::Go((Seq::empty(), used))
    } else {
        match thread_flow(config, replies.drop_last(), outcomes, used) {
            Flow::Go((html, used)) => if is_reaction(replies.last()) {
                Flow::Go((html, used))
            } else {
                match message_flow(config, replies.last(), 1, outcomes, used) {
                    Flow::Go((shown, used)) => Flow::Go(
                        (html + line(shown, "<div class=\"reply\">"@, "</div>"@), used),
                    ),
                    stop => stop,
                }
            },
            stop => stop,
        }
    }
}

/// How far the replies to part number `part` are rendered: nothing where there is none.
pub open spec fn replies_flow(
    config: Config,
    record: Record,
    part: int,
    outcomes: Seq<Outcome>,
    used: nat,
) -> Flow<(Seq<char>, nat), Seq<char>>
    decreases record, 0int, 0int,
{
    let replies = record.replies->Ok_0@;
    if record.replies is Ok && part <= usize::MAX && replies.contains_key(part as usize) {
        match thread_flow(config, replies[part as usize]@, outcomes, used) {
            Flow::Go((html, used)) => Flow::Go(
                (
                    line("<div class=\"replies\">"@, ""@, ""@) + html + line(
                        "</div>"@,
                        ""@,
                        ""@,
                    ),
                    used,
                ),
            ),
            stop => stop,
        }
    } else {
        Flow::Go((Seq::empty(), used))
    }
}

/// How far the first `count` parts of a message are rendered, each with the reactions and the
/// replies to it; with the number of the attachment that the next part shows, and of the next
/// outcome.
pub open spec fn parts_flow(
    config: Config,
    record: Record,
    count: nat,
    outcomes: Seq<Outcome>,
    used: nat,
) -> Flow<(Seq<char>, nat, nat), Seq<char>>
    decreases record, 1int, count,
{
    if count == 0 {
        Flow::Go((Seq::empty(), 0, used))
    } else {
        match parts_flow(config, record, (count - 1) as nat, outcomes, used) {
            Flow::Go((html, next, used)) => match content_flow(
                config,
                record,
                record.attachments->Ok_0@,
                record.body@[count - 1]@,
                next,
                outcomes,
                used,
            ) {
                Flow::Go((content, next, used)) => match reactions_flow(
                    config,
                    record,
                    count - 1,
                    outcomes,
                    used,
                ) {
                    Flow::Go((reactions, used)) => match replies_flow(
                        config,
                        record,
                        count - 1,
                        outcomes,
                        used,
                    ) {
                        Flow::Go((replies, used)) => Flow::Go(
                            (
                                html + line("<hr><div class=\"message_part\">"@, ""@, ""@) + content
                                    + line("</div>"@, ""@, ""@) + effect_line(record) + reactions
                                    + replies,
                                next,
                                used,
                            ),
                        ),
                        Flow::Failed(why) => Flow::Failed(why),
                        Flow::Wanted(transfer) => Flow::Wanted(transfer),
                    },
                    Flow::Failed(why) => Flow::Failed(why),
                    Flow::Wanted(transfer) => Flow::Wanted(transfer),
                },
                stop => stop,
            },
            stop => stop,
        }
    }
}

/// What a message begins with: who sent it and when, and its subject.
pub open spec fn message_head(record: Record) -> Seq<char> {
    line("<div class=\"message\">"@, ""@, ""@) + (if record.message.is_from_me {
        line("<div class=\"sent "@ + record.service@ + "\">"@, ""@, ""@)
    } else {
        line("<div class=\"received\">"@, ""@, ""@)
    }) + line(
        stamp_text(record.date@, optional(record.read_after), record.message.is_from_me),
        "<p><span class=\"timestamp\">"@,
        "</span>"@,
    ) + line(record.sender@, "<span class=\"sender\">"@, "</span></p>"@) + (
    match record.message.subject {
        Some(subject) => line(
            subject@,
            "<p>Subject: <span class=\"subject\">"@,
            "</span></p>"@,
        ),
        None => Seq::empty(),
    })
}

/// What a message ends with. A reply that is not shown below the message that it answers says that
/// it is one.
pub open spec fn message_tail(record: Record, indent: nat) -> Seq<char> {
    (if record.message.thread_originator_guid is Some && indent == 0 {
        line(
            "This message responded to an earlier message."@,
            "<span class=\"reply_context\">"@,
            "</span>"@,
        )
    } else {
        Seq::empty()
    }) + line("</div>"@, ""@, ""@) + line("</div>"@, ""@, ""@)
}

/// How far a message is rendered.
pub open spec fn message_flow(
    config: Config,
    record: Record,
    indent: nat,
    outcomes: Seq<Outcome>,
    used: nat,
) -> Flow<(Seq<char>, nat), Seq<char>>
    decreases record, 2int, 0int,
{
    match (record.attachments, record.replies, record.reactions) {
        (Err(why), _, _) => Flow::Failed(why@),
        (Ok(_), Err(why), _) => Flow::Failed(why@),
        (Ok(_), Ok(_), Err(why)) => Flow::Failed(why@),
        (Ok(_), Ok(_), Ok(_)) => match parts_flow(
            config,
            record,
            record.body@.len(),
            outcomes,
            used,
        ) {
            Flow::Go((html, _, used)) => Flow::Go(
                (message_head(record) + html + message_tail(record, indent), used),
            ),
            Flow::Failed(why) => Flow::Failed(why),
            Flow::Wanted(transfer) => Flow::Wanted(transfer),
        },
    }
}

/// Attachments that are alike are rendered alike.
proof fn lemma_alike_attachments(
    config: Config,
    a: Seq<Attachment>,
    b: Seq<Attachment>,
    at: int,
    outcomes: Seq<Outcome>,
    used: nat,
)
    requires
        are_alike(config, a, b),
        0 <= at < a.len(),
    ensures
        attachment_piece(config, a[at], outcomes, used) == attachment_piece(
            config,
            b[at],
            outcomes,
            used,
        ),
{
    assert(is_copied(a[at], b[at], optional(b[at].copied_path)));
}

/// An app message with attachments that are alike is rendered alike, and leaves them so.
proof fn lemma_alike_apps(
    config: Config,
    record: Record,
    a: Seq<Attachment>,
    after: Seq<Attachment>,
    b: Seq<Attachment>,
    outcomes: Seq<Outcome>,
    used: nat,
)
    requires
        are_alike(config, a, b),
        is_after_app(config, record, a, after, outcomes, used),
    ensures
        app_bubble(config, record, a, outcomes, used) == app_bubble(
            config,
            record,
            b,
            outcomes,
            used,
        ),
        are_alike(config, after, b),
{
    if a.len() > 0 {
        lemma_alike_attachments(config, a, b, 0, outcomes, used);
    }
    if let Variant::App(CustomBalloon::Application(id)) = record.variant@ {
        if let Some(Ok(parsed)) = record.payload {
            if let Ok(balloon) = parsed.app {
                assert(app_picture(config, balloon, a, outcomes, used) == app_picture(
                    config,
                    balloon,
                    b,
                    outcomes,
                    used,
                ));
            }
        }
    }
    assert forall|i: int| 0 <= i < after.len() implies is_copied(
        #[trigger] after[i],
        b[i],
        optional(b[i].copied_path),
    ) && (config.no_copy ==> optional(after[i].copied_path) == optional(b[i].copied_path)) by {
        assert(is_copied(a[i], b[i], optional(b[i].copied_path)));
    }
}

/// Where the rendering of replies stops, it goes no further.
proof fn lemma_thread_stop(
    config: Config,
    replies: Seq<Record>,
    count: int,
    outcomes: Seq<Outcome>,
    used: nat,
)
    requires
        0 <= count <= replies.len(),
        !(thread_flow(config, replies.take(count), outcomes, used) is Go),
    ensures
        thread_flow(config, replies, outcomes, used) == thread_flow(
            config,
            replies.take(count),
            outcomes,
            used,
        ),
    decreases replies.len() - count,
{
    if count < replies.len() {
        assert(replies.take(count + 1).drop_last() == replies.take(count));
        lemma_thread_stop(config, replies, count + 1, outcomes, used);
    } else {
        assert(replies.take(count) == replies);
    }
}

/// Where the rendering of the parts of a message stops, it goes no further.
proof fn lemma_parts_stop(
    config: Config,
    record: Record,
    count: nat,
    total: nat,
    outcomes: Seq<Outcome>,
    used: nat,
)
    requires
        count <= total,
        !(parts_flow(config, record, count, outcomes, used) is Go),
    ensures
        parts_flow(config, record, total, outcomes, used) == parts_flow(
            config,
            record,
            count,
            outcomes,
            used,
        ),
    decreases total - count,
{
    if count < total {
        lemma_parts_stop(config, record, count, (total - 1) as nat, outcomes, used);
    }
}

impl<'a> HTML<'a> {
    /// Whether a message is a reaction to another one.
    fn is_reaction(record: &Record) -> (reacts: bool)
        ensures
            reacts == is_reaction(*record),
    {
        match &record.variant {
            Variant::Reaction(_, _) => true,
            Variant::Sticker => record.message.associated_message_guid.is_some(),
            _ => false,
        }
    }

    /// Appends the line that tells of the effect that a message was sent with.
    fn add_effect(&self, out: &mut String, record: &Record)
        ensures
            final(out)@ == old(out)@ + effect_line(*record),
    {
        if record.message.expressive_send_style_id.is_some() {
            self.add_line(
                out,
                self.format_expressive(&record.effect),
                "<span class=\"expressive\">",
                "</span>",
            );
        }
        assert(out@ == old(out)@ + effect_line(*record));
    }

    /// What a message begins with.
    fn open_message(&self, record: &Record) -> (html: String)
        ensures
            html@ == message_head(*record),
    {
        let mut out = String::new();
        self.add_line(&mut out, "<div class=\"message\">", "", "");
        assert(out@ == line("<div class=\"message\">"@, ""@, ""@));
        if record.message.is_from_me {
            let class = enclosed("<div class=\"sent ", record.service.as_str(), "\">");
            self.add_line(&mut out, class.as_str(), "", "");
        } else {
            self.add_line(&mut out, "<div class=\"received\">", "", "");
        }
        let time = stamp(record.date.as_str(), &record.read_after, record.message.is_from_me);
        self.add_line(&mut out, time.as_str(), "<p><span class=\"timestamp\">", "</span>");
        self.add_line(
            &mut out,
            record.sender.as_str(),
            "<span class=\"sender\">",
            "</span></p>",
        );
        let ghost before = out@;
        if let Some(subject) = &record.message.subject {
            self.add_line(
                &mut out,
                subject.as_str(),
                "<p>Subject: <span class=\"subject\">",
                "</span></p>",
            );
        }
        assert(before + Seq::<char>::empty() == before);
        out
    }

    /// What a message ends with.
    fn close_message(&self, record: &Record, indent: usize) -> (html: String)
        ensures
            html@ == message_tail(*record, indent as nat),
    {
        let mut out = String::new();
        if record.message.thread_originator_guid.is_some() && indent == 0 {
            self.add_line(
                &mut out,
                "This message responded to an earlier message.",
                "<span class=\"reply_context\">",
                "</span>",
            );
            assert(out@ == line(
                "This message responded to an earlier message."@,
                "<span class=\"reply_context\">"@,
                "</span>"@,
            ));
        }
        self.add_line(&mut out, "</div>", "", "");
        self.add_line(&mut out, "</div>", "", "");
        out
    }

    /// Renders a part of a message, as far as the outcomes from number `used` on allow.
    fn format_part(
        &self,
        record: &Record,
        attachments: &mut Vec<Attachment>,
        part: &BubbleType<String>,
        next: usize,
        outcomes: &Vec<Outcome>,
        used: usize,
    ) -> (result: Flow<(String, usize, usize), String>)
        requires
            used <= outcomes.len(),
            next <= old(attachments).len(),
            record.attachments is Ok,
            are_alike(*self.config, old(attachments)@, record.attachments->Ok_0@),
        ensures
            result@ == content_flow(
                *self.config,
                *record,
                record.attachments->Ok_0@,
                part@,
                next as nat,
                outcomes@,
                used as nat,
            ),
            result matches Flow::Go((_, next, used)) ==> next <= final(attachments).len() && used
                <= outcomes.len(),
            are_alike(*self.config, final(attachments)@, record.attachments->Ok_0@),
    {
        let ghost rows = record.attachments->Ok_0@;
        let ghost before = attachments@;
        let mut out = String::new();
        match part {
            BubbleType::Text(text) => {
                if starts_with(text.as_str(), FITNESS_RECEIVER) {
                    proof {
                        reveal_strlit("$(kIMTranscriptPluginBreadcrumbTextReceiverIdentifier)");
                    }
                    let shown = replace(text.as_str(), FITNESS_RECEIVER, "You");
                    self.add_line(&mut out, shown.as_str(), "<span class=\"bubble\">", "</span>");
                } else {
                    self.add_line(&mut out, text.as_str(), "<span class=\"bubble\">", "</span>");
                }
                Flow::Go((out, next, used))
            },
            BubbleType::Attachment => {
                if next >= attachments.len() {
                    self.add_line(&mut out, "Attachment does not exist!", "", "");
                    return Flow::Go((out, next, used));
                }
                let result = self.format_attachment(&mut attachments[next], outcomes, used);
                proof {
                    lemma_alike_attachments(
                        *self.config,
                        before,
                        rows,
                        next as int,
                        outcomes@,
                        used as nat,
                    );
                    assert forall|i: int| 0 <= i < attachments@.len() implies is_copied(
                        #[trigger] attachments@[i],
                        rows[i],
                        optional(rows[i].copied_path),
                    ) && (self.config.no_copy ==> optional(attachments@[i].copied_path) == optional(
                        rows[i].copied_path,
                    )) by {
                        assert(is_copied(before[i], rows[i], optional(rows[i].copied_path)));
                    }
                }
                match result {
                    (Piece::Html(html), used) => {
                        self.add_line(&mut out, html.as_str(), "", "");
                        Flow::Go((out, next + 1, used))
                    },
                    (Piece::Lost(name), used) => {
                        self.add_line(
                            &mut out,
                            name.as_str(),
                            "<span class=\"attachment_error\">Unable to locate attachment: ",
                            "</span>",
                        );
                        Flow::Go((out, next, used))
                    },
                    (Piece::Wanted(transfer), _) => Flow::Wanted(transfer),
                }
            },
            BubbleType::App => {
                let result = self.format_app(record, attachments, outcomes, used);
                proof {
                    lemma_alike_apps(
                        *self.config,
                        *record,
                        before,
                        attachments@,
                        rows,
                        outcomes@,
                        used as nat,
                    );
                }
                match result {
                    (Bubble::Html(html), used) => {
                        self.add_line(&mut out, html.as_str(), "<div class=\"app\">", "</div>");
                        Flow::Go((out, next, used))
                    },
                    (Bubble::Error(why), used) => {
                        let note = "Unable to format app message: ".to_owned().concat(
                            why.text().as_str(),
                        );
                        self.add_line(
                            &mut out,
                            note.as_str(),
                            "<div class=\"app_error\">",
                            "</div>",
                        );
                        Flow::Go((out, next, used))
                    },
                    (Bubble::Wanted(transfer), _) => Flow::Wanted(transfer),
                }
            },
        }
    }

    /// Renders replies, one after the other, as far as the outcomes from number `used` on allow.
    fn format_thread(
        &self,
        replies: &Vec<Record>,
        outcomes: &Vec<Outcome>,
        used: usize,
    ) -> (result: Flow<(String, usize), String>)
        requires
            used <= outcomes.len(),
        ensures
            result@ == thread_flow(*self.config, replies@, outcomes@, used as nat),
            result matches Flow::Go((_, used)) ==> used <= outcomes.len(),
        decreases *replies, 0int, 0int,
    {
        let mut out = String::new();
        let mut next: usize = used;
        let mut at: usize = 0;
        assert(replies@.take(0) == Seq::<Record>::empty());
        while at < replies.len()
            invariant
                at <= replies.len(),
                next <= outcomes.len(),
                thread_flow(*self.config, replies@.take(at as int), outcomes@, used as nat)
                    == Flow::<(Seq<char>, nat), Seq<char>>::Go((out@, next as nat)),
            decreases replies.len() - at,
        {
            assert(replies@.take(at + 1).drop_last() == replies@.take(at as int));
            if !Self::is_reaction(&replies[at]) {
                let result = self.format_message(&replies[at], 1, outcomes, next);
                proof {
                    if !(result is Go) {
                        lemma_thread_stop(
                            *self.config,
                            replies@,
                            at + 1,
                            outcomes@,
                            used as nat,
                        );
                    }
                }
                match result {
                    Flow::Go((html, after)) => {
                        self.add_line(&mut out, html.as_str(), "<div class=\"reply\">", "</div>");
                        next = after;
                    },
                    stop => {
                        return stop;
                    },
                }
            }
            at = at + 1;
        }
        assert(replies@.take(at as int) == replies@);
        Flow::Go((out, next))
    }

    /// Renders the replies to part number `part`, as far as the outcomes from number `used` on
    /// allow.
    fn format_replies(
        &self,
        record: &Record,
        replies: &HashMap<usize, Vec<Record>>,
        part: usize,
        outcomes: &Vec<Outcome>,
        used: usize,
    ) -> (result: Flow<(String, usize), String>)
        requires
            used <= outcomes.len(),
            record.replies == Ok::<HashMap<usize, Vec<Record>>, String>(*replies),
        ensures
            result@ == replies_flow(*self.config, *record, part as int, outcomes@, used as nat),
            result matches Flow::Go((_, used)) ==> used <= outcomes.len(),
        decreases *record, 0int, 0int,
    {
        broadcast use vstd::std_specs::hash::group_hash_axioms;

        let thread = match replies.get(&part) {
            Some(thread) => thread,
            None => {
                return Flow::Go((String::new(), used));
            },
        };
        match self.format_thread(thread, outcomes, used) {
            Flow::Go((shown, used)) => {
                let mut out = String::new();
                self.add_line(&mut out, "<div class=\"replies\">", "", "");
                out.append(shown.as_str());
                self.add_line(&mut out, "</div>", "", "");
                Flow::Go((out, used))
            },
            stop => stop,
        }
    }

    /// Renders the parts of a message, each with the reactions and the replies to it, as far as the
    /// outcomes from number `used` on allow.
    fn format_parts(
        &self,
        record: &Record,
        attachments: Vec<Attachment>,
        replies: &HashMap<usize, Vec<Record>>,
        reactions: &HashMap<usize, Vec<Response>>,
        outcomes: &Vec<Outcome>,
        used: usize,
    ) -> (result: Flow<(String, usize, usize), String>)
        requires
            used <= outcomes.len(),
            record.attachments is Ok,
            attachments@ == record.attachments->Ok_0@,
            record.replies == Ok::<HashMap<usize, Vec<Record>>, String>(*replies),
            record.reactions == Ok::<HashMap<usize, Vec<Response>>, String>(*reactions),
        ensures
            result@ == parts_flow(
                *self.config,
                *record,
                record.body@.len(),
                outcomes@,
                used as nat,
            ),
            result matches Flow::Go((_, _, used)) ==> used <= outcomes.len(),
        decreases *record, 1int, 0int,
    {
        let mut attachments = attachments;
        let mut out = String::new();
        let mut next: usize = 0;
        let mut after: usize = used;
        let mut at: usize = 0;
        while at < record.body.len()
            invariant
                at <= record.body.len(),
                next <= attachments.len(),
                after <= outcomes.len(),
                record.attachments is Ok,
                are_alike(*self.config, attachments@, record.attachments->Ok_0@),
                record.replies == Ok::<HashMap<usize, Vec<Record>>, String>(*replies),
                record.reactions == Ok::<HashMap<usize, Vec<Response>>, String>(*reactions),
                parts_flow(*self.config, *record, at as nat, outcomes@, used as nat)
                    == Flow::<(Seq<char>, nat, nat), Seq<char>>::Go(
                    (out@, next as nat, after as nat),
                ),
            decreases record.body.len() - at,
        {
            let ghost config = *self.config;
            let ghost total = record.body@.len();
            let ghost reached = (at + 1) as nat;
            let content = self.format_part(
                record,
                &mut attachments,
                &record.body[at],
                next,
                outcomes,
                after,
            );
            proof {
                if !(content is Go) {
                    lemma_parts_stop(config, *record, reached, total, outcomes@, used as nat);
                }
            }
            let (content, turn, passed) = match content {
                Flow::Go(state) => state,
                stop => {
                    return stop;
                },
            };
            let shown = self.format_reactions(record, reactions, at, outcomes, passed);
            proof {
                if !(shown is Go) {
                    lemma_parts_stop(config, *record, reached, total, outcomes@, used as nat);
                }
            }
            let (shown, passed) = match shown {
                Flow::Go(state) => state,
                Flow::Failed(why) => {
                    return Flow::Failed(why);
                },
                Flow::Wanted(transfer) => {
                    return Flow::Wanted(transfer);
                },
            };
            let thread = self.format_replies(record, replies, at, outcomes, passed);
            proof {
                if !(thread is Go) {
                    lemma_parts_stop(config, *record, reached, total, outcomes@, used as nat);
                }
            }
            let (thread, passed) = match thread {
                Flow::Go(state) => state,
                Flow::Failed(why) => {
                    return Flow::Failed(why);
                },
                Flow::Wanted(transfer) => {
                    return Flow::Wanted(transfer);
                },
            };
            self.add_line(&mut out, "<hr><div class=\"message_part\">", "", "");
            out.append(content.as_str());
            self.add_line(&mut out, "</div>", "", "");
            self.add_effect(&mut out, record);
            out.append(shown.as_str());
            out.append(thread.as_str());
            next = turn;
            after = passed;
            at = at + 1;
        }
        Flow::Go((out, next, after))
    }

    /// Renders a message with the reactions and the replies to it, as far as the outcomes from
    /// number `used` on allow. An `indent` other than 0 says that the message is shown below the
    /// one that it answers.
    ///
    /// The rendering fails where the attachments, the replies or the reactions of the message, or
    /// of a reply or a sticker shown with it, could not be loaded.
    pub fn format_message(
        &self,
        record: &Record,
        indent: usize,
        outcomes: &Vec<Outcome>,
        used: usize,
    ) -> (result: Flow<(String, usize), String>)
        requires
            used <= outcomes.len(),
        ensures
            result@ == message_flow(
                *self.config,
                *record,
                indent as nat,
                outcomes@,
                used as nat,
            ),
            result matches Flow::Go((_, used)) ==> used <= outcomes.len(),
        decreases *record, 2int, 0int,
    {
        let attachments = match &record.attachments {
            Ok(attachments) => duplicate_all(attachments),
            Err(why) => {
                return Flow::Failed(why.clone());
            },
        };
        let replies = match &record.replies {
            Ok(replies) => replies,
            Err(why) => {
                return Flow::Failed(why.clone());
            },
        };
        let reactions = match &record.reactions {
            Ok(reactions) => reactions,
            Err(why) => {
                return Flow::Failed(why.clone());
            },
        };
        match self.format_parts(record, attachments, replies, reactions, outcomes, used) {
            Flow::Go((parts, _, used)) => {
                let mut out = self.open_message(record);
                out.append(parts.as_str());
                out.append(self.close_message(record, indent).as_str());
                Flow::Go((out, used))
            },
            Flow::Failed(why) => Flow::Failed(why),
            Flow::Wanted(transfer) => Flow::Wanted(transfer),
        }
    }
}

} // verus!
