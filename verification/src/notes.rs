//! What a page says of messages: when they were read, the effect that they were sent with, and the
//! new names of conversations. And how the texts that it is made of are put together.

use vstd::prelude::*;

#[allow(unused_imports)]
use crate::captions::{announcement_html, effect_text, stamp_text};
#[allow(unused_imports)]
use crate::database::expressive_of;
#[allow(unused_imports)]
use crate::excerpts::{holds, is_made_of, joined, lemma_six, stands_at};
#[allow(unused_imports)]
use crate::html::line;
#[allow(unused_imports)]
use crate::tables::Expressive;
#[allow(unused_imports)]
use crate::text::{begins_with, ends_with, replaced};

verus! {

/// A line holds its part between what stands before it and what stands behind it, and is ended. An
/// empty part gives no line.
pub proof fn law_lines_hold_their_part(part: Seq<char>, pre: Seq<char>, post: Seq<char>)
    ensures
        line(part, pre, post).len() == 0 <==> part.len() == 0,
        part.len() > 0 ==> {
            &&& begins_with(line(part, pre, post), pre + part)
            &&& ends_with(line(part, pre, post), post + "\n"@)
            &&& line(part, pre, post).len() == pre.len() + part.len() + post.len() + 1
        },
{
    reveal_strlit("\n");
    if part.len() > 0 {
        let text = line(part, pre, post);
        assert(text.take((pre + part).len() as int) == pre + part);
        assert(text.skip(text.len() - (post + "\n"@).len()) == post + "\n"@);
    }
}

/// A text begins with another one where that one, with something behind it, is the text.
pub proof fn law_beginnings_stand_first(text: Seq<char>, start: Seq<char>, rest: Seq<char>)
    ensures
        begins_with(start + rest, start),
        begins_with(text, start) <==> exists|more: Seq<char>| text == #[trigger] start.add(more),
{
    assert((start + rest).take(start.len() as int) == start);
    if begins_with(text, start) {
        assert(text == start.add(text.skip(start.len() as int)));
    }
    if exists|more: Seq<char>| text == #[trigger] start.add(more) {
        assert(text.take(start.len() as int) == start);
    }
}

/// A text in which another one does not occur stays as it is when that one is exchanged.
pub proof fn law_what_does_not_occur_is_not_exchanged(
    text: Seq<char>,
    from: Seq<char>,
    to: Seq<char>,
)
    requires
        !holds(text, from),
    ensures
        replaced(text, from, to) == text,
    decreases text.len(),
{
    if from.len() > 0 && from.len() <= text.len() {
        if begins_with(text, from) {
            assert(text.subrange(0, from.len() as int) == text.take(from.len() as int));
            assert(stands_at(text, from, 0));
        }
        let rest = text.skip(1);
        assert(!holds(rest, from)) by {
            if holds(rest, from) {
                let at = choose|at: int| #[trigger] stands_at(rest, from, at);
                assert(text.subrange(at + 1, at + 1 + from.len()) == rest.subrange(
                    at,
                    at + from.len(),
                ));
                assert(stands_at(text, from, at + 1));
            }
        }
        law_what_does_not_occur_is_not_exchanged(rest, from, to);
        assert(text == seq![text[0]] + rest);
    }
}

/// The first occurrence is exchanged, and so are those behind it; what stands before it stays.
pub proof fn law_occurrences_are_exchanged(
    before: Seq<char>,
    from: Seq<char>,
    behind: Seq<char>,
    to: Seq<char>,
)
    requires
        from.len() > 0,
        forall|at: int|
            0 <= at < before.len() ==> !#[trigger] stands_at(before + from + behind, from, at),
    ensures
        replaced(before + from + behind, from, to) == before + to + replaced(behind, from, to),
    decreases before.len(),
{
    let text = before + from + behind;
    if before.len() == 0 {
        assert(text.take(from.len() as int) == from);
        assert(text.skip(from.len() as int) == behind);
        assert(before + to == to);
    } else {
        let rest = before.skip(1);
        let later = rest + from + behind;
        assert(text.skip(1) == later);
        assert(!begins_with(text, from)) by {
            assert(!stands_at(text, from, 0));
            assert(text.subrange(0, from.len() as int) == text.take(from.len() as int));
        }
        assert forall|at: int| 0 <= at < rest.len() implies !#[trigger] stands_at(
            later,
            from,
            at,
        ) by {
            assert(!stands_at(text, from, at + 1));
            if at + from.len() <= later.len() {
                assert(text.subrange(at + 1, at + 1 + from.len()) == later.subrange(
                    at,
                    at + from.len(),
                ));
            }
        }
        law_occurrences_are_exchanged(rest, from, behind, to);
        let done = replaced(behind, from, to);
        assert(seq![text[0]] + (rest + to + done) == before + to + done);
    }
}

/// The date of a message is told, and then, where it is known and not nothing, who read the message
/// and after how long: the others what was sent, and you what was received.
pub proof fn law_stamps_tell_who_read_the_message(
    date: Seq<char>,
    time: Option<Seq<char>>,
    is_from_me: bool,
)
    ensures
        time is None || time->0.len() == 0 ==> stamp_text(date, time, is_from_me) == date,
        time is Some && time->0.len() > 0 ==> is_made_of(
            stamp_text(date, time, is_from_me),
            seq![
                date,
                if is_from_me {
                    " (Read by them"@
                } else {
                    " (Read by you"@
                },
                " after "@ + time->0,
                ")"@,
            ],
        ),
{
    reveal_strlit(" (Read by ");
    reveal_strlit("them");
    reveal_strlit("you");
    reveal_strlit(" (Read by them");
    reveal_strlit(" (Read by you");
    if time is Some && time->0.len() > 0 {
        let reader = if is_from_me {
            " (Read by them"@
        } else {
            " (Read by you"@
        };
        let pieces = seq![date, reader, " after "@ + time->0, ")"@];
        reveal_with_fuel(joined, 5);
        assert(" (Read by "@ + "them"@ == " (Read by them"@);
        assert(" (Read by "@ + "you"@ == " (Read by you"@);
        assert(pieces.skip(1).skip(1).skip(1).skip(1).len() == 0);
        assert(stamp_text(date, time, is_from_me) == joined(pieces));
    }
}

/// An announcement tells the date, who gave the name, and the name: in that order, and nothing
/// else. Only the owner of the messages is called `You`; a conversation without a name is unknown.
pub proof fn law_announcements_tell_the_name(
    date: Seq<char>,
    sender: Seq<char>,
    title: Option<Seq<char>>,
)
    ensures
        is_made_of(
            announcement_html(date, sender, title),
            seq![
                "\n<div class =\"announcement\"><p>"@,
                "<span class=\"timestamp\">"@ + date + "</span> "@,
                if sender == "Me"@ {
                    "You"@
                } else {
                    sender
                },
                " named the conversation "@,
                "<b>"@ + (if title is Some {
                    title->0
                } else {
                    "Unknown"@
                }) + "</b>"@,
                "</p></div>\n"@,
            ],
        ),
{
    reveal_strlit("\n<div class =\"announcement\"><p>");
    reveal_strlit("<span class=\"timestamp\">");
    reveal_strlit("\n<div class =\"announcement\"><p><span class=\"timestamp\">");
    reveal_strlit(" named the conversation ");
    reveal_strlit("<b>");
    reveal_strlit(" named the conversation <b>");
    reveal_strlit("</b>");
    reveal_strlit("</p></div>\n");
    reveal_strlit("</b></p></div>\n");
    let who = if sender == "Me"@ {
        "You"@
    } else {
        sender
    };
    let name = if title is Some {
        title->0
    } else {
        "Unknown"@
    };
    let start = "\n<div class =\"announcement\"><p>"@;
    let words = " named the conversation "@;
    let end = "</p></div>\n"@;
    let stamp = "<span class=\"timestamp\">"@;
    assert("\n<div class =\"announcement\"><p><span class=\"timestamp\">"@ == start + stamp);
    assert(" named the conversation <b>"@ == words + "<b>"@);
    assert("</b></p></div>\n"@ == "</b>"@ + end);
    lemma_announcement(start, stamp, date, "</span> "@, who, words, "<b>"@, name, "</b>"@, end);
    lemma_six(start, stamp + date + "</span> "@, who, words, "<b>"@ + name + "</b>"@, end);
}

proof fn lemma_announcement(
    start: Seq<char>,
    stamp: Seq<char>,
    date: Seq<char>,
    stamped: Seq<char>,
    who: Seq<char>,
    words: Seq<char>,
    bold: Seq<char>,
    name: Seq<char>,
    plain: Seq<char>,
    end: Seq<char>,
)
    ensures
        (start + stamp) + date + stamped + who + (words + bold) + name + (plain + end) == start + (
        stamp + date + stamped) + who + words + (bold + name + plain) + end,
{
    assert((start + stamp) + date + stamped + who + (words + bold) + name + (plain + end) == start
        + (stamp + date + stamped) + who + words + (bold + name + plain) + end);
}

/// Whether an effect is one of those that have a name of their own.
pub open spec fn is_known(effect: Expressive<Seq<char>>) -> bool {
    !(effect is Unknown) && !(effect is Normal)
}

proof fn lemma_effect_texts()
    ensures
        forall|effect: Expressive<Seq<char>>| is_known(effect) ==> begins_with(
            #[trigger] effect_text(effect),
            "Sent with "@,
        ),
        forall|a: Expressive<Seq<char>>, b: Expressive<Seq<char>>|
            is_known(a) && is_known(b) && a != b ==> #[trigger] effect_text(a)
                != #[trigger] effect_text(b),
{
    reveal_strlit("Sent with ");
    reveal_strlit("Sent with Confetti");
    reveal_strlit("Sent with Echo");
    reveal_strlit("Sent with Fireworks");
    reveal_strlit("Sent with Balloons");
    reveal_strlit("Sent with Heart");
    reveal_strlit("Sent with Lasers");
    reveal_strlit("Sent with Shooting Start");
    reveal_strlit("Sent with Sparkles");
    reveal_strlit("Sent with Spotlight");
    reveal_strlit("Sent with Slam");
    reveal_strlit("Sent with Loud");
    reveal_strlit("Sent with Gentle");
    reveal_strlit("Sent with Invisible Ink");
    assert forall|effect: Expressive<Seq<char>>| is_known(effect) implies begins_with(
        #[trigger] effect_text(effect),
        "Sent with "@,
    ) by {
        assert(effect_text(effect).take(10) == "Sent with "@);
    }
    assert forall|a: Expressive<Seq<char>>, b: Expressive<Seq<char>>|
        is_known(a) && is_known(b) && a != b implies #[trigger] effect_text(a)
        != #[trigger] effect_text(b) by {
        let x = effect_text(a);
        let y = effect_text(b);
        assert(x[10] != y[10] || x[11] != y[11] || x.len() != y.len());
    }
}

/// Each effect that is known is told by words of its own; one that is not, by its name; and where a
/// message has no effect, nothing is told.
pub proof fn law_effects_are_told_apart(
    first: Expressive<Seq<char>>,
    second: Expressive<Seq<char>>,
    name: Seq<char>,
)
    ensures
        is_known(first) ==> begins_with(effect_text(first), "Sent with "@),
        is_known(first) && is_known(second) && first != second ==> effect_text(first)
            != effect_text(second),
        effect_text(Expressive::Unknown(name)) == name,
        effect_text(Expressive::<Seq<char>>::Normal).len() == 0,
{
    lemma_effect_texts();
}

/// An effect of the whole screen that goes by the same word in the database is told by that word.
pub proof fn law_effects_are_told_by_their_word(word: Seq<char>)
    requires
        word == "Confetti"@ || word == "Echo"@ || word == "Fireworks"@ || word == "Heart"@ || word
            == "Lasers"@ || word == "Sparkles"@ || word == "Spotlight"@,
    ensures
        effect_text(
            expressive_of(Some("com.apple.messages.effect.CK"@ + word + "Effect"@)),
        ) == "Sent with "@ + word,
{
    reveal_strlit("com.apple.messages.effect.CK");
    reveal_strlit("Effect");
    reveal_strlit("Sent with ");
    reveal_strlit("com.apple.MobileSMS.expressivesend.gentle");
    reveal_strlit("com.apple.MobileSMS.expressivesend.impact");
    reveal_strlit("com.apple.MobileSMS.expressivesend.invisibleink");
    reveal_strlit("com.apple.MobileSMS.expressivesend.loud");
    reveal_strlit("com.apple.messages.effect.CKConfettiEffect");
    reveal_strlit("com.apple.messages.effect.CKEchoEffect");
    reveal_strlit("com.apple.messages.effect.CKFireworksEffect");
    reveal_strlit("com.apple.messages.effect.CKHappyBirthdayEffect");
    reveal_strlit("com.apple.messages.effect.CKHeartEffect");
    reveal_strlit("com.apple.messages.effect.CKLasersEffect");
    reveal_strlit("com.apple.messages.effect.CKShootingStarEffect");
    reveal_strlit("com.apple.messages.effect.CKSparklesEffect");
    reveal_strlit("com.apple.messages.effect.CKSpotlightEffect");
    reveal_strlit("Confetti");
    reveal_strlit("Sent with Confetti");
    reveal_strlit("Echo");
    reveal_strlit("Sent with Echo");
    reveal_strlit("Fireworks");
    reveal_strlit("Sent with Fireworks");
    reveal_strlit("Heart");
    reveal_strlit("Sent with Heart");
    reveal_strlit("Lasers");
    reveal_strlit("Sent with Lasers");
    reveal_strlit("Sparkles");
    reveal_strlit("Sent with Sparkles");
    reveal_strlit("Spotlight");
    reveal_strlit("Sent with Spotlight");
    let name = "com.apple.messages.effect.CK"@ + word + "Effect"@;
    assert(name[10] == 'm' && name[11] == 'e');
    assert(name[28] == word[0] && name[29] == word[1]);
    if word == "Confetti"@ {
        assert(name == "com.apple.messages.effect.CKConfettiEffect"@);
        assert("Sent with "@ + word == "Sent with Confetti"@);
    }
    if word == "Echo"@ {
        assert(name == "com.apple.messages.effect.CKEchoEffect"@);
        assert("Sent with "@ + word == "Sent with Echo"@);
    }
    if word == "Fireworks"@ {
        assert(name == "com.apple.messages.effect.CKFireworksEffect"@);
        assert("Sent with "@ + word == "Sent with Fireworks"@);
    }
    if word == "Heart"@ {
        assert(name == "com.apple.messages.effect.CKHeartEffect"@);
        assert("Sent with "@ + word == "Sent with Heart"@);
    }
    if word == "Lasers"@ {
        assert(name == "com.apple.messages.effect.CKLasersEffect"@);
        assert("Sent with "@ + word == "Sent with Lasers"@);
    }
    if word == "Sparkles"@ {
        assert(name == "com.apple.messages.effect.CKSparklesEffect"@);
        assert("Sent with "@ + word == "Sent with Sparkles"@);
    }
    if word == "Spotlight"@ {
        assert(name == "com.apple.messages.effect.CKSpotlightEffect"@);
        assert("Sent with "@ + word == "Sent with Spotlight"@);
    }
}

} // verus!
