//! What a page shows of a message: when it was sent and by whom, its subject, and every part of it
//! with all that belongs to the part.

use vstd::prelude::*;

#[allow(unused_imports)]
use crate::apps::app_bubble;
#[allow(unused_imports)]
use crate::attachments::{attachment_piece, Flow, Outcome, Piece};
#[allow(unused_imports)]
use crate::balloons::{error_text, Bubble};
#[allow(unused_imports)]
use crate::captions::{effect_text, stamp_text};
#[allow(unused_imports)]
use crate::excerpts::{
    holds, lemma_block_end, lemma_holds, lemma_holds_through, lemma_line, lemma_plain_line,
};
#[allow(unused_imports)]
use crate::html::Config;
#[allow(unused_imports)]
use crate::messages::{
    content_flow, effect_line, is_reaction, message_flow, message_head, message_tail, parts_flow,
    replies_flow, thread_flow,
};
#[allow(unused_imports)]
use crate::notes::law_what_does_not_occur_is_not_exchanged;
#[allow(unused_imports)]
use crate::reactions::{reactions_flow, response_flow, responses_flow};
#[allow(unused_imports)]
use crate::records::{Mark, Record};
#[allow(unused_imports)]
use crate::tables::{Attachment, BubbleType};
#[allow(unused_imports)]
use crate::text::{begins_with, optional, replaced};
#[allow(unused_imports)]
use crate::threads::{
    law_every_reaction_is_shown, law_every_reply_is_shown, law_reactions_are_a_block,
    law_replies_are_a_block,
};

verus! {

proof fn lemma_head(record: Record)
    ensures
        ({
            let time = stamp_text(
                record.date@,
                optional(record.read_after),
                record.message.is_from_me,
            );
            let opening = if record.message.is_from_me {
                "<div class=\"message\">\n<div class=\"sent "@ + record.service@ + "\">\n"@
            } else {
                "<div class=\"message\">\n<div class=\"received\">\n"@
            };
            let date_line = if time.len() > 0 {
                "<p><span class=\"timestamp\">"@ + time + "</span>\n"@
            } else {
                Seq::empty()
            };
            let sender_line = if record.sender@.len() > 0 {
                "<span class=\"sender\">"@ + record.sender@ + "</span></p>\n"@
            } else {
                Seq::empty()
            };
            let subject_line = if record.message.subject is Some
                && record.message.subject->0@.len() > 0 {
                "<p>Subject: <span class=\"subject\">"@ + record.message.subject->0@
                    + "</span></p>\n"@
            } else {
                Seq::empty()
            };
            message_head(record) == opening + date_line + sender_line + subject_line
        }),
{
    reveal_strlit("<div class=\"message\">");
    reveal_strlit("<div class=\"message\">\n<div class=\"sent ");
    reveal_strlit("<div class=\"sent ");
    reveal_strlit("\">");
    reveal_strlit("\">\n");
    reveal_strlit("<div class=\"message\">\n<div class=\"received\">\n");
    reveal_strlit("<div class=\"received\">");
    reveal_strlit("</span>");
    reveal_strlit("</span>\n");
    reveal_strlit("</span></p>");
    reveal_strlit("</span></p>\n");
    reveal_strlit("\n");
    let time = stamp_text(record.date@, optional(record.read_after), record.message.is_from_me);
    let sent = "<div class=\"sent "@ + record.service@ + "\">"@;
    lemma_plain_line("<div class=\"message\">"@);
    lemma_plain_line(sent);
    lemma_plain_line("<div class=\"received\">"@);
    lemma_line(time, "<p><span class=\"timestamp\">"@, "</span>"@);
    lemma_line(record.sender@, "<span class=\"sender\">"@, "</span></p>"@);
    if record.message.subject is Some {
        lemma_line(
            record.message.subject->0@,
            "<p>Subject: <span class=\"subject\">"@,
            "</span></p>"@,
        );
    }
    assert("</span>"@ + "\n"@ == "</span>\n"@);
    assert("</span></p>"@ + "\n"@ == "</span></p>\n"@);
    assert("<div class=\"message\">"@ + "\n"@ + (sent + "\n"@)
        == "<div class=\"message\">\n<div class=\"sent "@ + record.service@ + "\">\n"@);
    assert("<div class=\"message\">"@ + "\n"@ + ("<div class=\"received\">"@ + "\n"@)
        == "<div class=\"message\">\n<div class=\"received\">\n"@);
}

proof fn lemma_tail(record: Record, indent: nat)
    ensures
        ({
            let note = if record.message.thread_originator_guid is Some && indent == 0 {
                "<span class=\"reply_context\">"@
                    + "This message responded to an earlier message."@ + "</span>\n"@
            } else {
                Seq::empty()
            };
            message_tail(record, indent) == note + "</div>\n</div>\n"@
        }),
{
    let words = "This message responded to an earlier message."@;
    reveal_strlit("This message responded to an earlier message.");
    reveal_strlit("</span>");
    reveal_strlit("</span>\n");
    reveal_strlit("\n");
    reveal_strlit("</div>\n");
    reveal_strlit("</div>\n</div>\n");
    lemma_block_end();
    lemma_line(words, "<span class=\"reply_context\">"@, "</span>"@);
    assert("</span>"@ + "\n"@ == "</span>\n"@);
    let note = if record.message.thread_originator_guid is Some && indent == 0 {
        "<span class=\"reply_context\">"@ + words + "</span>\n"@
    } else {
        Seq::empty()
    };
    assert(note + "</div>\n"@ + "</div>\n"@ == note + "</div>\n</div>\n"@);
}

/// A message is made of its opening, the date, the sender, the subject, its parts, and its end, in
/// that order, and of nothing else. Whoever sent it, it tells its subject; only what is empty is
/// left out.
pub proof fn law_messages_are_made_of_their_fields(
    config: Config,
    record: Record,
    indent: nat,
    outcomes: Seq<Outcome>,
    used: nat,
)
    ensures
        message_flow(config, record, indent, outcomes, used) matches Flow::Go((html, after)) ==> (
        parts_flow(config, record, record.body@.len(), outcomes, used) matches Flow::Go(
            (parts, _, reached),
        ) && {
            let time = stamp_text(
                record.date@,
                optional(record.read_after),
                record.message.is_from_me,
            );
            let opening = if record.message.is_from_me {
                "<div class=\"message\">\n<div class=\"sent "@ + record.service@ + "\">\n"@
            } else {
                "<div class=\"message\">\n<div class=\"received\">\n"@
            };
            let date_line = if time.len() > 0 {
                "<p><span class=\"timestamp\">"@ + time + "</span>\n"@
            } else {
                Seq::empty()
            };
            let sender_line = if record.sender@.len() > 0 {
                "<span class=\"sender\">"@ + record.sender@ + "</span></p>\n"@
            } else {
                Seq::empty()
            };
            let subject_line = if record.message.subject is Some
                && record.message.subject->0@.len() > 0 {
                "<p>Subject: <span class=\"subject\">"@ + record.message.subject->0@
                    + "</span></p>\n"@
            } else {
                Seq::empty()
            };
            let note = if record.message.thread_originator_guid is Some && indent == 0 {
                "<span class=\"reply_context\">"@
                    + "This message responded to an earlier message."@ + "</span>\n"@
            } else {
                Seq::empty()
            };
            &&& after == reached
            &&& html == opening + date_line + sender_line + subject_line + parts + note
                + "</div>\n</div>\n"@
        }),
{
    if let Flow::Go((html, _)) = message_flow(config, record, indent, outcomes, used) {
        let (parts, _, _) = parts_flow(config, record, record.body@.len(), outcomes, used)->Go_0;
        lemma_head(record);
        lemma_tail(record, indent);
        let note = if record.message.thread_originator_guid is Some && indent == 0 {
            "<span class=\"reply_context\">"@ + "This message responded to an earlier message."@
                + "</span>\n"@
        } else {
            Seq::empty()
        };
        let head = message_head(record);
        assert(head + parts + (note + "</div>\n</div>\n"@) == head + parts + note
            + "</div>\n</div>\n"@);
    }
}

/// A text holds what stands at the end of its beginning.
proof fn lemma_end_is_held(
    before: Seq<char>,
    piece: Seq<char>,
    parts: Seq<char>,
    tail: Seq<char>,
)
    ensures
        holds(before + piece + parts + tail, piece),
{
    assert(before + piece + parts + tail == before + piece + (parts + tail));
    lemma_holds(before, piece, parts + tail);
}

proof fn lemma_grouped(
    a: Seq<char>,
    b: Seq<char>,
    c: Seq<char>,
    d: Seq<char>,
    e: Seq<char>,
    f: Seq<char>,
)
    ensures
        a + b + c + (d + e + f) == (a + b) + (c + d + e + f),
{
    assert(a + b + c + (d + e + f) == (a + b) + (c + d + e + f));
}

/// The beginning of a message ends with its subject, behind the sender.
proof fn lemma_subject(record: Record) -> (before: Seq<char>)
    requires
        record.message.subject is Some,
        record.message.subject->0@.len() > 0,
    ensures
        message_head(record) == before + ((if record.sender@.len() > 0 {
            "<span class=\"sender\">"@ + record.sender@ + "</span></p>\n"@
        } else {
            Seq::empty()
        }) + "<p>Subject: <span class=\"subject\">"@ + record.message.subject->0@
            + "</span></p>\n"@),
{
    lemma_head(record);
    let time = stamp_text(record.date@, optional(record.read_after), record.message.is_from_me);
    let opening = if record.message.is_from_me {
        "<div class=\"message\">\n<div class=\"sent "@ + record.service@ + "\">\n"@
    } else {
        "<div class=\"message\">\n<div class=\"received\">\n"@
    };
    let date = if time.len() > 0 {
        "<p><span class=\"timestamp\">"@ + time + "</span>\n"@
    } else {
        Seq::empty()
    };
    let sender = if record.sender@.len() > 0 {
        "<span class=\"sender\">"@ + record.sender@ + "</span></p>\n"@
    } else {
        Seq::empty()
    };
    lemma_grouped(
        opening,
        date,
        sender,
        "<p>Subject: <span class=\"subject\">"@,
        record.message.subject->0@,
        "</span></p>\n"@,
    );
    opening + date
}

/// The subject of a message is shown, whoever sent it, right behind the sender.
pub proof fn law_subjects_are_shown(
    config: Config,
    record: Record,
    indent: nat,
    outcomes: Seq<Outcome>,
    used: nat,
)
    requires
        record.message.subject is Some,
        record.message.subject->0@.len() > 0,
    ensures
        message_flow(config, record, indent, outcomes, used) matches Flow::Go((html, _)) ==> holds(
            html,
            (if record.sender@.len() > 0 {
                "<span class=\"sender\">"@ + record.sender@ + "</span></p>\n"@
            } else {
                Seq::empty()
            }) + "<p>Subject: <span class=\"subject\">"@ + record.message.subject->0@
                + "</span></p>\n"@,
        ),
{
    if let Flow::Go((html, _)) = message_flow(config, record, indent, outcomes, used) {
        let (parts, _, _) = parts_flow(config, record, record.body@.len(), outcomes, used)->Go_0;
        let sender = if record.sender@.len() > 0 {
            "<span class=\"sender\">"@ + record.sender@ + "</span></p>\n"@
        } else {
            Seq::empty()
        };
        let piece = sender + "<p>Subject: <span class=\"subject\">"@ + record.message.subject->0@
            + "</span></p>\n"@;
        let before = lemma_subject(record);
        lemma_end_is_held(before, piece, parts, message_tail(record, indent));
    }
}

/// What is told of the effect that a message was sent with, behind each of its parts.
proof fn lemma_effect(record: Record)
    ensures
        effect_line(record) == (if record.message.expressive_send_style_id is Some && effect_text(
            record.effect@,
        ).len() > 0 {
            "<span class=\"expressive\">"@ + effect_text(record.effect@) + "</span>\n"@
        } else {
            Seq::empty()
        }),
{
    reveal_strlit("</span>");
    reveal_strlit("</span>\n");
    reveal_strlit("\n");
    lemma_line(effect_text(record.effect@), "<span class=\"expressive\">"@, "</span>"@);
    assert("</span>"@ + "\n"@ == "</span>\n"@);
}

/// A message shows its parts in their order: each in a block of its own, and behind the block what
/// is told of the effect, the reactions to that part and the replies to it. Each part goes on where
/// the one before it came to.
#[verifier::rlimit(30)]
pub proof fn law_parts_come_with_what_belongs_to_them(
    config: Config,
    record: Record,
    at: nat,
    outcomes: Seq<Outcome>,
    used: nat,
)
    ensures
        parts_flow(config, record, 0, outcomes, used) == Flow::<
            (Seq<char>, nat, nat),
            Seq<char>,
        >::Go((Seq::empty(), 0, used)),
        parts_flow(config, record, at + 1, outcomes, used) matches Flow::Go(
            (html, then_next, after),
        ) ==> (parts_flow(config, record, at, outcomes, used) matches Flow::Go(
            (before, next, from),
        ) && (content_flow(
            config,
            record,
            record.attachments->Ok_0@,
            record.body@[at as int]@,
            next,
            outcomes,
            from,
        ) matches Flow::Go((content, turn, shown)) && (reactions_flow(
            config,
            record,
            at as int,
            outcomes,
            shown,
        ) matches Flow::Go((reactions, reacted)) && (replies_flow(
            config,
            record,
            at as int,
            outcomes,
            reacted,
        ) matches Flow::Go((replies, replied)) && {
            let effect = if record.message.expressive_send_style_id is Some && effect_text(
                record.effect@,
            ).len() > 0 {
                "<span class=\"expressive\">"@ + effect_text(record.effect@) + "</span>\n"@
            } else {
                Seq::empty()
            };
            &&& html == before + "<hr><div class=\"message_part\">\n"@ + content + "</div>\n"@
                + effect + reactions + replies
            &&& then_next == turn
            &&& after == replied
        })))),
{
    reveal_strlit("<hr><div class=\"message_part\">");
    reveal_strlit("<hr><div class=\"message_part\">\n");
    reveal_strlit("\n");
    lemma_effect(record);
    lemma_block_end();
    lemma_plain_line("<hr><div class=\"message_part\">"@);
    assert("<hr><div class=\"message_part\">"@ + "\n"@ == "<hr><div class=\"message_part\">\n"@);
}

/// What begins with a text begins with all that the text begins with.
proof fn lemma_begins_through(whole: Seq<char>, text: Seq<char>, start: Seq<char>)
    requires
        begins_with(whole, text),
        begins_with(text, start),
    ensures
        begins_with(whole, start),
{
    assert(whole.take(start.len() as int) == text.take(start.len() as int));
}

/// One part more is rendered behind those before it, and where those stop, so does it.
proof fn lemma_one_part_more(
    config: Config,
    record: Record,
    at: nat,
    outcomes: Seq<Outcome>,
    used: nat,
)
    ensures
        match (
            parts_flow(config, record, at, outcomes, used),
            parts_flow(config, record, at + 1, outcomes, used),
        ) {
            (Flow::Go((before, _, _)), Flow::Go((html, _, _))) => begins_with(html, before),
            (Flow::Go(_), _) => true,
            (stop, all) => all == stop,
        },
{
    law_parts_come_with_what_belongs_to_them(config, record, at, outcomes, used);
    if let Flow::Go((before, _, _)) = parts_flow(config, record, at, outcomes, used) {
        if let Flow::Go((html, _, _)) = parts_flow(config, record, at + 1, outcomes, used) {
            assert(html.take(before.len() as int) == before);
        }
    }
}

/// What was rendered of the first parts of a message stays what it is when more parts are rendered:
/// a message that is shown shows them all, and one that stops at a part stops there.
pub proof fn law_parts_stay(
    config: Config,
    record: Record,
    count: nat,
    later: nat,
    outcomes: Seq<Outcome>,
    used: nat,
)
    requires
        count <= later,
    ensures
        match (
            parts_flow(config, record, count, outcomes, used),
            parts_flow(config, record, later, outcomes, used),
        ) {
            (Flow::Go((before, _, _)), Flow::Go((html, _, _))) => begins_with(html, before),
            (Flow::Go(_), _) => true,
            (stop, all) => all == stop,
        },
    decreases later - count,
{
    if count < later {
        let last = (later - 1) as nat;
        law_parts_stay(config, record, count, last, outcomes, used);
        lemma_one_part_more(config, record, last, outcomes, used);
        if let Flow::Go((html, _, _)) = parts_flow(config, record, later, outcomes, used) {
            if let Flow::Go((before, _, _)) = parts_flow(config, record, count, outcomes, used) {
                let (middle, _, _) = parts_flow(config, record, last, outcomes, used)->Go_0;
                lemma_begins_through(html, middle, before);
            }
        }
    } else if let Flow::Go((html, _, _)) = parts_flow(config, record, count, outcomes, used) {
        assert(html.take(html.len() as int) == html);
    }
}

/// A message whose next part waits for a transfer waits for it, and one where the reactions or the
/// replies to the part stop, stops for the same reason.
pub proof fn law_parts_stop_for_a_reason(
    config: Config,
    record: Record,
    at: nat,
    outcomes: Seq<Outcome>,
    used: nat,
)
    ensures
        parts_flow(config, record, at, outcomes, used) matches Flow::Go((_, next, from)) ==> {
            let whole = parts_flow(config, record, at + 1, outcomes, used);
            match content_flow(
                config,
                record,
                record.attachments->Ok_0@,
                record.body@[at as int]@,
                next,
                outcomes,
                from,
            ) {
                Flow::Wanted(transfer) => whole == Flow::<(Seq<char>, nat, nat), Seq<char>>::Wanted(
                    transfer,
                ),
                Flow::Failed(_) => false,
                Flow::Go((_, _, shown)) => match reactions_flow(
                    config,
                    record,
                    at as int,
                    outcomes,
                    shown,
                ) {
                    Flow::Wanted(transfer) => whole == Flow::<
                        (Seq<char>, nat, nat),
                        Seq<char>,
                    >::Wanted(transfer),
                    Flow::Failed(why) => whole == Flow::<(Seq<char>, nat, nat), Seq<char>>::Failed(
                        why,
                    ),
                    Flow::Go((_, reacted)) => match replies_flow(
                        config,
                        record,
                        at as int,
                        outcomes,
                        reacted,
                    ) {
                        Flow::Wanted(transfer) => whole == Flow::<
                            (Seq<char>, nat, nat),
                            Seq<char>,
                        >::Wanted(transfer),
                        Flow::Failed(why) => whole == Flow::<
                            (Seq<char>, nat, nat),
                            Seq<char>,
                        >::Failed(why),
                        Flow::Go(_) => whole is Go,
                    },
                },
            }
        },
{
}

/// A message fails where its attachments, its replies or its reactions could not be loaded, for the
/// first of these reasons. Else it is as far as its parts are.
pub proof fn law_messages_fail_where_nothing_was_loaded(
    config: Config,
    record: Record,
    indent: nat,
    outcomes: Seq<Outcome>,
    used: nat,
)
    ensures
        record.attachments is Err ==> message_flow(config, record, indent, outcomes, used)
            == Flow::<(Seq<char>, nat), Seq<char>>::Failed(record.attachments->Err_0@),
        record.attachments is Ok && record.replies is Err ==> message_flow(
            config,
            record,
            indent,
            outcomes,
            used,
        ) == Flow::<(Seq<char>, nat), Seq<char>>::Failed(record.replies->Err_0@),
        record.attachments is Ok && record.replies is Ok && record.reactions is Err
            ==> message_flow(config, record, indent, outcomes, used) == Flow::<
            (Seq<char>, nat),
            Seq<char>,
        >::Failed(record.reactions->Err_0@),
        record.attachments is Ok && record.replies is Ok && record.reactions is Ok ==> match (
            parts_flow(config, record, record.body@.len(), outcomes, used),
            message_flow(config, record, indent, outcomes, used),
        ) {
            (Flow::Go(_), Flow::Go(_)) => true,
            (Flow::Failed(why), Flow::Failed(reason)) => why == reason,
            (Flow::Wanted(transfer), Flow::Wanted(wanted)) => transfer == wanted,
            _ => false,
        },
{
}

/// A message holds what its parts hold.
proof fn lemma_message_holds_parts(
    config: Config,
    record: Record,
    indent: nat,
    outcomes: Seq<Outcome>,
    used: nat,
)
    ensures
        message_flow(config, record, indent, outcomes, used) matches Flow::Go((html, _)) ==> (
        parts_flow(config, record, record.body@.len(), outcomes, used) matches Flow::Go(
            (parts, _, _),
        ) && holds(html, parts)),
{
    if let Flow::Go((html, _)) = message_flow(config, record, indent, outcomes, used) {
        let (parts, _, _) = parts_flow(config, record, record.body@.len(), outcomes, used)->Go_0;
        lemma_holds(message_head(record), parts, message_tail(record, indent));
    }
}

/// What a text begins with, it holds.
proof fn lemma_begins_holds(text: Seq<char>, start: Seq<char>)
    requires
        begins_with(text, start),
    ensures
        holds(text, start),
{
    let none = Seq::<char>::empty();
    let rest = text.skip(start.len() as int);
    assert(text == none + start + rest);
    lemma_holds(none, start, rest);
}

/// A part holds its block, the reactions and the replies.
proof fn lemma_part_holds(
    before: Seq<char>,
    content: Seq<char>,
    effect: Seq<char>,
    reactions: Seq<char>,
    replies: Seq<char>,
)
    ensures
        ({
            let parts = before + "<hr><div class=\"message_part\">\n"@ + content + "</div>\n"@
                + effect + reactions + replies;
            &&& holds(parts, "<hr><div class=\"message_part\">\n"@ + content + "</div>\n"@)
            &&& holds(parts, reactions)
            &&& holds(parts, replies)
        }),
{
    let none = Seq::<char>::empty();
    let block = "<hr><div class=\"message_part\">\n"@ + content + "</div>\n"@;
    let parts = before + "<hr><div class=\"message_part\">\n"@ + content + "</div>\n"@ + effect
        + reactions + replies;
    assert(parts == before + block + (effect + reactions + replies));
    lemma_holds(before, block, effect + reactions + replies);
    assert(parts == before + block + effect + reactions + replies);
    lemma_holds(before + block + effect, reactions, replies);
    assert(parts == before + block + effect + reactions + replies + none);
    lemma_holds(before + block + effect + reactions, replies, none);
}

/// Every part of a message is shown, in a block of its own, with the reactions and the replies to
/// it.
pub proof fn law_every_part_is_shown(
    config: Config,
    record: Record,
    indent: nat,
    at: nat,
    outcomes: Seq<Outcome>,
    used: nat,
)
    requires
        at < record.body@.len(),
    ensures
        message_flow(config, record, indent, outcomes, used) matches Flow::Go((html, _)) ==> (
        parts_flow(config, record, at, outcomes, used) matches Flow::Go((_, next, from)) && (
        content_flow(
            config,
            record,
            record.attachments->Ok_0@,
            record.body@[at as int]@,
            next,
            outcomes,
            from,
        ) matches Flow::Go((content, _, shown)) && (reactions_flow(
            config,
            record,
            at as int,
            outcomes,
            shown,
        ) matches Flow::Go((reactions, reacted)) && (replies_flow(
            config,
            record,
            at as int,
            outcomes,
            reacted,
        ) matches Flow::Go((replies, _)) && {
            &&& holds(html, "<hr><div class=\"message_part\">\n"@ + content + "</div>\n"@)
            &&& holds(html, reactions)
            &&& holds(html, replies)
        })))),
{
    if let Flow::Go((html, _)) = message_flow(config, record, indent, outcomes, used) {
        lemma_message_holds_parts(config, record, indent, outcomes, used);
        let (all, _, _) = parts_flow(config, record, record.body@.len(), outcomes, used)->Go_0;
        law_parts_stay(config, record, at + 1, record.body@.len(), outcomes, used);
        law_parts_come_with_what_belongs_to_them(config, record, at, outcomes, used);
        let (parts, _, _) = parts_flow(config, record, at + 1, outcomes, used)->Go_0;
        let (before, next, from) = parts_flow(config, record, at, outcomes, used)->Go_0;
        let (content, _, shown) = content_flow(
            config,
            record,
            record.attachments->Ok_0@,
            record.body@[at as int]@,
            next,
            outcomes,
            from,
        )->Go_0;
        let (reactions, reacted) = reactions_flow(
            config,
            record,
            at as int,
            outcomes,
            shown,
        )->Go_0;
        let (replies, _) = replies_flow(config, record, at as int, outcomes, reacted)->Go_0;
        let effect = if record.message.expressive_send_style_id is Some && effect_text(
            record.effect@,
        ).len() > 0 {
            "<span class=\"expressive\">"@ + effect_text(record.effect@) + "</span>\n"@
        } else {
            Seq::empty()
        };
        let block = "<hr><div class=\"message_part\">\n"@ + content + "</div>\n"@;
        lemma_part_holds(before, content, effect, reactions, replies);
        lemma_begins_holds(all, parts);
        lemma_holds_through(html, all, parts);
        lemma_holds_through(html, parts, block);
        lemma_holds_through(html, parts, reactions);
        lemma_holds_through(html, parts, replies);
    }
}

/// A text that does not begin with the mark of the reader is shown as it is, in a bubble; an empty
/// one is not shown. No text takes an attachment's turn or an outcome.
pub proof fn law_texts_are_shown_as_they_are(
    config: Config,
    record: Record,
    attachments: Seq<Attachment>,
    text: Seq<char>,
    next: nat,
    outcomes: Seq<Outcome>,
    used: nat,
)
    requires
        !begins_with(text, "$(kIMTranscriptPluginBreadcrumbTextReceiverIdentifier)"@),
    ensures
        content_flow(config, record, attachments, BubbleType::Text(text), next, outcomes, used)
            == Flow::<(Seq<char>, nat, nat), Seq<char>>::Go(
            (
                if text.len() > 0 {
                    "<span class=\"bubble\">"@ + text + "</span>\n"@
                } else {
                    Seq::empty()
                },
                next,
                used,
            ),
        ),
{
    reveal_strlit("</span>");
    reveal_strlit("</span>\n");
    reveal_strlit("\n");
    lemma_line(text, "<span class=\"bubble\">"@, "</span>"@);
    assert("</span>"@ + "\n"@ == "</span>\n"@);
}

/// A text that begins with the mark of the reader speaks of them as `You`, there and wherever the
/// mark stands behind it. What holds no mark goes on as it is.
pub proof fn law_fitness_texts_speak_of_the_reader(
    config: Config,
    record: Record,
    attachments: Seq<Attachment>,
    rest: Seq<char>,
    next: nat,
    outcomes: Seq<Outcome>,
    used: nat,
)
    ensures
        ({
            let mark = "$(kIMTranscriptPluginBreadcrumbTextReceiverIdentifier)"@;
            &&& content_flow(
                config,
                record,
                attachments,
                BubbleType::Text(mark + rest),
                next,
                outcomes,
                used,
            ) == Flow::<(Seq<char>, nat, nat), Seq<char>>::Go(
                (
                    "<span class=\"bubble\">You"@ + replaced(rest, mark, "You"@) + "</span>\n"@,
                    next,
                    used,
                ),
            )
            &&& !holds(rest, mark) ==> replaced(rest, mark, "You"@) == rest
        }),
{
    let mark = "$(kIMTranscriptPluginBreadcrumbTextReceiverIdentifier)"@;
    reveal_strlit("$(kIMTranscriptPluginBreadcrumbTextReceiverIdentifier)");
    reveal_strlit("</span>");
    reveal_strlit("</span>\n");
    reveal_strlit("\n");
    reveal_strlit("You");
    reveal_strlit("<span class=\"bubble\">");
    reveal_strlit("<span class=\"bubble\">You");
    let text = mark + rest;
    let more = replaced(rest, mark, "You"@);
    assert(text.take(mark.len() as int) == mark);
    assert(text.skip(mark.len() as int) == rest);
    if !holds(rest, mark) {
        law_what_does_not_occur_is_not_exchanged(rest, mark, "You"@);
    }
    assert(replaced(text, mark, "You"@) == "You"@ + more);
    lemma_line("You"@ + more, "<span class=\"bubble\">"@, "</span>"@);
    assert("</span>"@ + "\n"@ == "</span>\n"@);
    assert("<span class=\"bubble\">"@ + ("You"@ + more) == "<span class=\"bubble\">You"@ + more);
}

/// A part that is an attachment shows the one whose turn it is, which then had its turn. One that
/// is lost is named, and keeps its turn; where there is none left, the page says so.
pub proof fn law_attachments_are_shown_in_turn(
    config: Config,
    record: Record,
    attachments: Seq<Attachment>,
    next: nat,
    outcomes: Seq<Outcome>,
    used: nat,
)
    ensures
        ({
            let flow = content_flow(
                config,
                record,
                attachments,
                BubbleType::Attachment,
                next,
                outcomes,
                used,
            );
            if next >= attachments.len() {
                flow == Flow::<(Seq<char>, nat, nat), Seq<char>>::Go(
                    ("Attachment does not exist!\n"@, next, used),
                )
            } else {
                let (piece, after) = attachment_piece(
                    config,
                    attachments[next as int],
                    outcomes,
                    used,
                );
                match piece {
                    Piece::Html(html) => flow == Flow::<(Seq<char>, nat, nat), Seq<char>>::Go(
                        (
                            if html.len() > 0 {
                                html + "\n"@
                            } else {
                                html
                            },
                            next + 1,
                            after,
                        ),
                    ),
                    Piece::Lost(name) => flow == Flow::<(Seq<char>, nat, nat), Seq<char>>::Go(
                        (
                            if name.len() > 0 {
                                "<span class=\"attachment_error\">Unable to locate attachment: "@
                                    + name + "</span>\n"@
                            } else {
                                name
                            },
                            next,
                            after,
                        ),
                    ),
                    Piece::Wanted(transfer) => flow == Flow::<
                        (Seq<char>, nat, nat),
                        Seq<char>,
                    >::Wanted(transfer),
                }
            }
        }),
{
    reveal_strlit("Attachment does not exist!");
    reveal_strlit("Attachment does not exist!\n");
    reveal_strlit("</span>");
    reveal_strlit("</span>\n");
    reveal_strlit("\n");
    assert("</span>"@ + "\n"@ == "</span>\n"@);
    assert("Attachment does not exist!"@ + "\n"@ == "Attachment does not exist!\n"@);
    lemma_plain_line("Attachment does not exist!"@);
    if next < attachments.len() {
        let (piece, _) = attachment_piece(config, attachments[next as int], outcomes, used);
        match piece {
            Piece::Html(html) => {
                lemma_plain_line(html);
                assert(html.len() == 0 ==> html == Seq::<char>::empty());
            },
            Piece::Lost(name) => {
                lemma_line(
                    name,
                    "<span class=\"attachment_error\">Unable to locate attachment: "@,
                    "</span>"@,
                );
                assert(name.len() == 0 ==> name == Seq::<char>::empty());
            },
            Piece::Wanted(_) => {},
        }
    }
}

/// A part that is an app shows the balloon of the message, or why there is none. It takes no turn
/// of an attachment.
#[verifier::rlimit(30)]
pub proof fn law_apps_are_shown(
    config: Config,
    record: Record,
    attachments: Seq<Attachment>,
    next: nat,
    outcomes: Seq<Outcome>,
    used: nat,
)
    ensures
        ({
            let flow = content_flow(
                config,
                record,
                attachments,
                BubbleType::App,
                next,
                outcomes,
                used,
            );
            let (bubble, after) = app_bubble(config, record, attachments, outcomes, used);
            match bubble {
                Bubble::Html(html) => flow == Flow::<(Seq<char>, nat, nat), Seq<char>>::Go(
                    (
                        if html.len() > 0 {
                            "<div class=\"app\">"@ + html + "</div>\n"@
                        } else {
                            html
                        },
                        next,
                        after,
                    ),
                ),
                Bubble::Error(why) => flow == Flow::<(Seq<char>, nat, nat), Seq<char>>::Go(
                    (
                        "<div class=\"app_error\">Unable to format app message: "@ + error_text(why)
                            + "</div>\n"@,
                        next,
                        after,
                    ),
                ),
                Bubble::Wanted(transfer) => flow == Flow::<
                    (Seq<char>, nat, nat),
                    Seq<char>,
                >::Wanted(transfer),
            }
        }),
{
    reveal_strlit("<div class=\"app_error\">");
    reveal_strlit("Unable to format app message: ");
    reveal_strlit("<div class=\"app_error\">Unable to format app message: ");
    lemma_block_end();
    let (bubble, _) = app_bubble(config, record, attachments, outcomes, used);
    match bubble {
        Bubble::Html(html) => {
            lemma_line(html, "<div class=\"app\">"@, "</div>"@);
            assert(html.len() == 0 ==> html == Seq::<char>::empty());
        },
        Bubble::Error(why) => {
            let words = "Unable to format app message: "@ + error_text(why);
            lemma_line(words, "<div class=\"app_error\">"@, "</div>"@);
            assert("<div class=\"app_error\">"@ + words
                == "<div class=\"app_error\">Unable to format app message: "@ + error_text(why));
        },
        Bubble::Wanted(_) => {},
    }
}

/// Every text of a message is on the page.
pub proof fn law_every_text_is_on_the_page(
    config: Config,
    record: Record,
    indent: nat,
    at: nat,
    outcomes: Seq<Outcome>,
    used: nat,
)
    requires
        at < record.body@.len(),
        record.body@[at as int] is Text,
        record.body@[at as int]->Text_0@.len() > 0,
        !begins_with(
            record.body@[at as int]->Text_0@,
            "$(kIMTranscriptPluginBreadcrumbTextReceiverIdentifier)"@,
        ),
    ensures
        message_flow(config, record, indent, outcomes, used) matches Flow::Go((html, _)) ==> holds(
            html,
            "<span class=\"bubble\">"@ + record.body@[at as int]->Text_0@ + "</span>\n"@,
        ),
{
    law_every_part_is_shown(config, record, indent, at, outcomes, used);
    if let Flow::Go((html, _)) = message_flow(config, record, indent, outcomes, used) {
        let text = record.body@[at as int]->Text_0@;
        let (_, next, from) = parts_flow(config, record, at, outcomes, used)->Go_0;
        law_texts_are_shown_as_they_are(
            config,
            record,
            record.attachments->Ok_0@,
            text,
            next,
            outcomes,
            from,
        );
        let content = "<span class=\"bubble\">"@ + text + "</span>\n"@;
        let block = "<hr><div class=\"message_part\">\n"@ + content + "</div>\n"@;
        lemma_holds("<hr><div class=\"message_part\">\n"@, content, "</div>\n"@);
        lemma_holds_through(html, block, content);
    }
}

/// Every reaction to a part of a message that was not taken back is on the page.
pub proof fn law_every_reaction_is_on_the_page(
    config: Config,
    record: Record,
    indent: nat,
    part: usize,
    at: int,
    outcomes: Seq<Outcome>,
    used: nat,
)
    requires
        part < record.body@.len(),
        record.reactions is Ok,
        record.reactions->Ok_0@.contains_key(part),
        0 <= at < record.reactions->Ok_0@[part]@.len(),
        !(record.reactions->Ok_0@[part]@[at].mark matches Mark::Reaction(added, _) && !added),
    ensures
        message_flow(config, record, indent, outcomes, used) matches Flow::Go((html, _)) ==> exists|
            from: nat,
        |
            (#[trigger] response_flow(
                config,
                record.reactions->Ok_0@[part]@[at],
                outcomes,
                from,
            )) matches Flow::Go((shown, _)) && holds(
                html,
                "<div class=\"reaction\">"@ + shown + "</div>\n"@,
            ),
{
    law_every_part_is_shown(config, record, indent, part as nat, outcomes, used);
    if let Flow::Go((html, _)) = message_flow(config, record, indent, outcomes, used) {
        let responses = record.reactions->Ok_0@[part]@;
        let (_, next, from) = parts_flow(config, record, part as nat, outcomes, used)->Go_0;
        let (_, _, start) = content_flow(
            config,
            record,
            record.attachments->Ok_0@,
            record.body@[part as int]@,
            next,
            outcomes,
            from,
        )->Go_0;
        law_reactions_are_a_block(config, record, part, outcomes, start);
        law_every_reaction_is_shown(config, responses, at, outcomes, start);
        let (inner, _) = responses_flow(config, responses, outcomes, start)->Go_0;
        let (block, _) = reactions_flow(config, record, part as int, outcomes, start)->Go_0;
        lemma_holds("<div class=\"reactions\"><hr><p>Reactions:</p>\n"@, inner, "</div>\n"@);
        lemma_holds_through(html, block, inner);
        let own = choose|own: nat|
            (#[trigger] response_flow(config, responses[at], outcomes, own)) matches Flow::Go(
                (shown, _),
            ) && holds(inner, "<div class=\"reaction\">"@ + shown + "</div>\n"@);
        let (shown, _) = response_flow(config, responses[at], outcomes, own)->Go_0;
        lemma_holds_through(html, inner, "<div class=\"reaction\">"@ + shown + "</div>\n"@);
    }
}

/// Every reply to a part of a message that is no reaction is on the page, below the message.
pub proof fn law_every_reply_is_on_the_page(
    config: Config,
    record: Record,
    indent: nat,
    part: usize,
    at: int,
    outcomes: Seq<Outcome>,
    used: nat,
)
    requires
        part < record.body@.len(),
        record.replies is Ok,
        record.replies->Ok_0@.contains_key(part),
        0 <= at < record.replies->Ok_0@[part]@.len(),
        !is_reaction(record.replies->Ok_0@[part]@[at]),
    ensures
        message_flow(config, record, indent, outcomes, used) matches Flow::Go((html, _)) ==> exists|
            from: nat,
        |
            (#[trigger] message_flow(
                config,
                record.replies->Ok_0@[part]@[at],
                1,
                outcomes,
                from,
            )) matches Flow::Go((shown, _)) && holds(
                html,
                "<div class=\"reply\">"@ + shown + "</div>\n"@,
            ),
{
    law_every_part_is_shown(config, record, indent, part as nat, outcomes, used);
    if let Flow::Go((html, _)) = message_flow(config, record, indent, outcomes, used) {
        let replies = record.replies->Ok_0@[part]@;
        let (_, next, from) = parts_flow(config, record, part as nat, outcomes, used)->Go_0;
        let (_, _, shown) = content_flow(
            config,
            record,
            record.attachments->Ok_0@,
            record.body@[part as int]@,
            next,
            outcomes,
            from,
        )->Go_0;
        let (_, start) = reactions_flow(config, record, part as int, outcomes, shown)->Go_0;
        law_replies_are_a_block(config, record, part, outcomes, start);
        law_every_reply_is_shown(config, replies, at, outcomes, start);
        let (inner, _) = thread_flow(config, replies, outcomes, start)->Go_0;
        let (block, _) = replies_flow(config, record, part as int, outcomes, start)->Go_0;
        lemma_holds("<div class=\"replies\">\n"@, inner, "</div>\n"@);
        lemma_holds_through(html, block, inner);
        let own = choose|own: nat|
            (#[trigger] message_flow(config, replies[at], 1, outcomes, own)) matches Flow::Go(
                (shown, _),
            ) && holds(inner, "<div class=\"reply\">"@ + shown + "</div>\n"@);
        let (shown, _) = message_flow(config, replies[at], 1, outcomes, own)->Go_0;
        lemma_holds_through(html, inner, "<div class=\"reply\">"@ + shown + "</div>\n"@);
    }
}

} // verus!
