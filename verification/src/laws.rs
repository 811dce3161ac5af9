//! What holds of all that is rendered.

use vstd::prelude::*;

#[allow(unused_imports)]
use crate::apps::{app_bubble, is_link};
#[allow(unused_imports)]
use crate::attachments::{attachment_piece, is_heic, Flow, Outcome, Piece};
#[allow(unused_imports)]
use crate::balloons::{
    app_footer, app_header, app_picture, balloon_html, framed_html, images_html, link_start,
    url_footer, url_html, AppMessage, Bubble, URLMessage,
};
#[allow(unused_imports)]
use crate::captions::stamp_text;
#[allow(unused_imports)]
use crate::database::{
    date_fits, is_delay, is_in_calendar, is_mark, marked_part, parts_from, read_delay, seconds_of,
    span_text, variant_of,
};
#[allow(unused_imports)]
use crate::html::{line, Config};
#[allow(unused_imports)]
use crate::messages::{
    content_flow, is_reaction, message_flow, message_head, message_tail, parts_flow, replies_flow,
    thread_flow,
};
#[allow(unused_imports)]
use crate::reactions::{reactions_flow, response_flow, responses_flow};
#[allow(unused_imports)]
use crate::records::{Entry, Mark, Record, Response};
#[allow(unused_imports)]
use crate::tables::{Attachment, BubbleType, CustomBalloon, Message, Variant};
#[allow(unused_imports)]
use crate::text::{begins_with, ends_with, optional};

verus! {

/// The most transfers that the reactions to part number `part` wait for.
pub open spec fn most_for_reactions(record: Record, part: int) -> nat {
    let reactions = record.reactions->Ok_0@;
    if part <= usize::MAX && reactions.contains_key(part as usize) {
        reactions[part as usize]@.len()
    } else {
        0
    }
}

/// The most transfers that replies wait for.
pub open spec fn most_for_thread(replies: Seq<Record>) -> nat
    decreases replies, 0int, 0int,
{
    if replies.len() == 0 {
        0
    } else {
        most_for_thread(replies.drop_last()) + (if is_reaction(replies.last()) {
            0
        } else {
            most_transfers(replies.last())
        })
    }
}

/// The most transfers that the replies to part number `part` wait for.
pub open spec fn most_for_replies(record: Record, part: int) -> nat
    decreases record, 0int, 0int,
{
    let replies = record.replies->Ok_0@;
    if record.replies is Ok && part <= usize::MAX && replies.contains_key(part as usize) {
        most_for_thread(replies[part as usize]@)
    } else {
        0
    }
}

/// The most transfers that the first `count` parts of a message wait for.
pub open spec fn most_for_parts(record: Record, count: nat) -> nat
    decreases record, 1int, count,
{
    if count == 0 {
        0
    } else {
        most_for_parts(record, (count - 1) as nat) + 1 + most_for_reactions(record, count - 1)
            + most_for_replies(record, count - 1)
    }
}

/// The most transfers that a message waits for: one for each of its parts, for each reaction to
/// it, and for those of the replies to it.
pub open spec fn most_transfers(record: Record) -> nat
    decreases record, 2int, 0int,
{
    most_for_parts(record, record.body@.len())
}

/// Whether the rendering `flow`, which had the outcomes from number `used` up to `known`, keeps to
/// the bound `most` on transfers, and is `later` with more outcomes once it waits for none.
pub open spec fn replays(
    flow: Flow<(Seq<char>, nat), Seq<char>>,
    later: Flow<(Seq<char>, nat), Seq<char>>,
    known: nat,
    used: nat,
    most: nat,
) -> bool {
    match flow {
        Flow::Go((_, after)) => later == flow && used <= after <= known && after <= used + most,
        Flow::Failed(_) => later == flow,
        Flow::Wanted(_) => known < used + most,
    }
}

proof fn lemma_attachment_replays(
    config: Config,
    attachment: Attachment,
    outcomes: Seq<Outcome>,
    more: Seq<Outcome>,
    used: nat,
)
    requires
        used <= outcomes.len() <= more.len(),
        outcomes == more.take(outcomes.len() as int),
    ensures
        ({
            let (piece, after) = attachment_piece(config, attachment, outcomes, used);
            if piece is Wanted {
                used == outcomes.len()
            } else {
                &&& attachment_piece(config, attachment, more, used) == (piece, after)
                &&& used <= after <= outcomes.len()
                &&& after <= used + 1
            }
        }),
{
    if used < outcomes.len() {
        assert(outcomes[used as int] == more[used as int]);
    }
}

proof fn lemma_app_replays(
    config: Config,
    record: Record,
    attachments: Seq<Attachment>,
    outcomes: Seq<Outcome>,
    more: Seq<Outcome>,
    used: nat,
)
    requires
        used <= outcomes.len() <= more.len(),
        outcomes == more.take(outcomes.len() as int),
    ensures
        ({
            let (bubble, after) = app_bubble(config, record, attachments, outcomes, used);
            if bubble is Wanted {
                used == outcomes.len()
            } else {
                &&& app_bubble(config, record, attachments, more, used) == (bubble, after)
                &&& used <= after <= outcomes.len()
                &&& after <= used + 1
            }
        }),
{
    if attachments.len() > 0 {
        lemma_attachment_replays(config, attachments[0], outcomes, more, used);
    }
    if let Variant::App(CustomBalloon::Application(id)) = record.variant@ {
        if let Some(Ok(parsed)) = record.payload {
            if let Ok(balloon) = parsed.app {
                assert(app_picture(config, balloon, attachments, outcomes, used).0 is Ok
                    ==> app_picture(config, balloon, attachments, outcomes, used) == app_picture(
                    config,
                    balloon,
                    attachments,
                    more,
                    used,
                ));
            }
        }
    }
}

proof fn lemma_content_replays(
    config: Config,
    record: Record,
    attachments: Seq<Attachment>,
    part: BubbleType<Seq<char>>,
    next: nat,
    outcomes: Seq<Outcome>,
    more: Seq<Outcome>,
    used: nat,
)
    requires
        used <= outcomes.len() <= more.len(),
        outcomes == more.take(outcomes.len() as int),
    ensures
        match content_flow(config, record, attachments, part, next, outcomes, used) {
            Flow::Go((_, _, after)) => {
                &&& content_flow(config, record, attachments, part, next, more, used)
                    == content_flow(config, record, attachments, part, next, outcomes, used)
                &&& used <= after <= outcomes.len()
                &&& after <= used + 1
            },
            Flow::Failed(_) => false,
            Flow::Wanted(_) => used == outcomes.len(),
        },
{
    match part {
        BubbleType::Text(_) => {},
        BubbleType::Attachment => {
            if next < attachments.len() {
                lemma_attachment_replays(
                    config,
                    attachments[next as int],
                    outcomes,
                    more,
                    used,
                );
            }
        },
        BubbleType::App => {
            lemma_app_replays(config, record, attachments, outcomes, more, used);
        },
    }
}

proof fn lemma_responses_replay(
    config: Config,
    responses: Seq<Response>,
    outcomes: Seq<Outcome>,
    more: Seq<Outcome>,
    used: nat,
)
    requires
        used <= outcomes.len() <= more.len(),
        outcomes == more.take(outcomes.len() as int),
    ensures
        replays(
            responses_flow(config, responses, outcomes, used),
            responses_flow(config, responses, more, used),
            outcomes.len(),
            used,
            responses.len(),
        ),
    decreases responses.len(),
{
    if responses.len() > 0 {
        lemma_responses_replay(config, responses.drop_last(), outcomes, more, used);
        if let Flow::Go((_, after)) = responses_flow(
            config,
            responses.drop_last(),
            outcomes,
            used,
        ) {
            if after < outcomes.len() {
                assert(outcomes[after as int] == more[after as int]);
            }
        }
    }
}

proof fn lemma_reactions_replay(
    config: Config,
    record: Record,
    part: int,
    outcomes: Seq<Outcome>,
    more: Seq<Outcome>,
    used: nat,
)
    requires
        used <= outcomes.len() <= more.len(),
        outcomes == more.take(outcomes.len() as int),
    ensures
        replays(
            reactions_flow(config, record, part, outcomes, used),
            reactions_flow(config, record, part, more, used),
            outcomes.len(),
            used,
            most_for_reactions(record, part),
        ),
{
    let reactions = record.reactions->Ok_0@;
    if part <= usize::MAX && reactions.contains_key(part as usize) {
        lemma_responses_replay(config, reactions[part as usize]@, outcomes, more, used);
    }
}

proof fn lemma_thread_replays(
    config: Config,
    replies: Seq<Record>,
    outcomes: Seq<Outcome>,
    more: Seq<Outcome>,
    used: nat,
)
    requires
        used <= outcomes.len() <= more.len(),
        outcomes == more.take(outcomes.len() as int),
    ensures
        replays(
            thread_flow(config, replies, outcomes, used),
            thread_flow(config, replies, more, used),
            outcomes.len(),
            used,
            most_for_thread(replies),
        ),
    decreases replies, 0int, 0int,
{
    if replies.len() > 0 {
        lemma_thread_replays(config, replies.drop_last(), outcomes, more, used);
        if let Flow::Go((_, after)) = thread_flow(config, replies.drop_last(), outcomes, used) {
            if !is_reaction(replies.last()) {
                law_rendering_replays(config, replies.last(), 1, outcomes, more, after);
            }
        }
    }
}

proof fn lemma_replies_replay(
    config: Config,
    record: Record,
    part: int,
    outcomes: Seq<Outcome>,
    more: Seq<Outcome>,
    used: nat,
)
    requires
        used <= outcomes.len() <= more.len(),
        outcomes == more.take(outcomes.len() as int),
    ensures
        replays(
            replies_flow(config, record, part, outcomes, used),
            replies_flow(config, record, part, more, used),
            outcomes.len(),
            used,
            most_for_replies(record, part),
        ),
    decreases record, 0int, 0int,
{
    let replies = record.replies->Ok_0@;
    if record.replies is Ok && part <= usize::MAX && replies.contains_key(part as usize) {
        lemma_thread_replays(config, replies[part as usize]@, outcomes, more, used);
    }
}

proof fn lemma_parts_replay(
    config: Config,
    record: Record,
    count: nat,
    outcomes: Seq<Outcome>,
    more: Seq<Outcome>,
    used: nat,
)
    requires
        used <= outcomes.len() <= more.len(),
        outcomes == more.take(outcomes.len() as int),
    ensures
        match parts_flow(config, record, count, outcomes, used) {
            Flow::Go((_, _, after)) => {
                &&& parts_flow(config, record, count, more, used) == parts_flow(
                    config,
                    record,
                    count,
                    outcomes,
                    used,
                )
                &&& used <= after <= outcomes.len()
                &&& after <= used + most_for_parts(record, count)
            },
            Flow::Failed(_) => parts_flow(config, record, count, more, used) == parts_flow(
                config,
                record,
                count,
                outcomes,
                used,
            ),
            Flow::Wanted(_) => outcomes.len() < used + most_for_parts(record, count),
        },
    decreases record, 1int, count,
{
    if count > 0 {
        lemma_parts_replay(config, record, (count - 1) as nat, outcomes, more, used);
        if let Flow::Go((_, next, after)) = parts_flow(
            config,
            record,
            (count - 1) as nat,
            outcomes,
            used,
        ) {
            let attachments = record.attachments->Ok_0@;
            let part = record.body@[count - 1]@;
            lemma_content_replays(
                config,
                record,
                attachments,
                part,
                next,
                outcomes,
                more,
                after,
            );
            if let Flow::Go((_, _, after)) = content_flow(
                config,
                record,
                attachments,
                part,
                next,
                outcomes,
                after,
            ) {
                lemma_reactions_replay(config, record, count - 1, outcomes, more, after);
                if let Flow::Go((_, after)) = reactions_flow(
                    config,
                    record,
                    count - 1,
                    outcomes,
                    after,
                ) {
                    lemma_replies_replay(config, record, count - 1, outcomes, more, after);
                }
            }
        }
    }
}

/// Rendering can be repeated with what came of the transfers that it waited for: once it waits for
/// none, more outcomes do not change it; and it waits for no more transfers than one for each part
/// of the message, each reaction to it, and those of the replies to it.
pub proof fn law_rendering_replays(
    config: Config,
    record: Record,
    indent: nat,
    outcomes: Seq<Outcome>,
    more: Seq<Outcome>,
    used: nat,
)
    requires
        used <= outcomes.len() <= more.len(),
        outcomes == more.take(outcomes.len() as int),
    ensures
        replays(
            message_flow(config, record, indent, outcomes, used),
            message_flow(config, record, indent, more, used),
            outcomes.len(),
            used,
            most_transfers(record),
        ),
    decreases record, 2int, 0int,
{
    lemma_parts_replay(config, record, record.body@.len(), outcomes, more, used);
}

/// A rendering that goes on at outcome number `used`.
pub open spec fn moved(flow: Flow<(Seq<char>, nat), Seq<char>>, used: nat) -> Flow<
    (Seq<char>, nat),
    Seq<char>,
> {
    match flow {
        Flow::Go((html, _)) => Flow::Go((html, used)),
        stop => stop,
    }
}

proof fn lemma_content_linked(
    config: Config,
    record: Record,
    attachments: Seq<Attachment>,
    part: BubbleType<Seq<char>>,
    next: nat,
    outcomes: Seq<Outcome>,
    used: nat,
)
    requires
        config.no_copy,
    ensures
        match content_flow(config, record, attachments, part, next, Seq::empty(), 0) {
            Flow::Go((html, next_after, _)) => content_flow(
                config,
                record,
                attachments,
                part,
                next,
                outcomes,
                used,
            ) == Flow::<(Seq<char>, nat, nat), Seq<char>>::Go((html, next_after, used)),
            _ => false,
        },
{
    let none = Seq::<Outcome>::empty();
    match part {
        BubbleType::App => {
            if let Variant::App(CustomBalloon::Application(id)) = record.variant@ {
                if let Some(Ok(parsed)) = record.payload {
                    if let Ok(balloon) = parsed.app {
                        assert(app_picture(config, balloon, attachments, none, 0).0 is Ok);
                        assert(app_picture(config, balloon, attachments, outcomes, used) == (
                            app_picture(config, balloon, attachments, none, 0).0,
                            used,
                        ));
                    }
                }
            }
            assert(app_bubble(config, record, attachments, outcomes, used) == (
                app_bubble(config, record, attachments, none, 0).0,
                used,
            ));
            assert(!(app_bubble(config, record, attachments, none, 0).0 is Wanted));
        },
        _ => {},
    }
}

proof fn lemma_responses_linked(
    config: Config,
    responses: Seq<Response>,
    outcomes: Seq<Outcome>,
    used: nat,
)
    requires
        config.no_copy,
    ensures
        !(responses_flow(config, responses, outcomes, used) is Wanted),
        responses_flow(config, responses, outcomes, used) == moved(
            responses_flow(config, responses, Seq::empty(), 0),
            used,
        ),
    decreases responses.len(),
{
    if responses.len() > 0 {
        lemma_responses_linked(config, responses.drop_last(), outcomes, used);
        lemma_responses_linked(config, responses.drop_last(), Seq::empty(), 0);
        assert(response_flow(config, responses.last(), outcomes, used) == moved(
            response_flow(config, responses.last(), Seq::empty(), 0),
            used,
        ));
    }
}

proof fn lemma_thread_linked(
    config: Config,
    replies: Seq<Record>,
    outcomes: Seq<Outcome>,
    used: nat,
)
    requires
        config.no_copy,
    ensures
        !(thread_flow(config, replies, outcomes, used) is Wanted),
        thread_flow(config, replies, outcomes, used) == moved(
            thread_flow(config, replies, Seq::empty(), 0),
            used,
        ),
    decreases replies, 0int, 0int,
{
    if replies.len() > 0 {
        lemma_thread_linked(config, replies.drop_last(), outcomes, used);
        lemma_thread_linked(config, replies.drop_last(), Seq::empty(), 0);
        if !is_reaction(replies.last()) {
            law_linked_attachments_need_no_transfer(config, replies.last(), 1, outcomes, used);
            law_linked_attachments_need_no_transfer(config, replies.last(), 1, Seq::empty(), 0);
        }
    }
}

proof fn lemma_replies_linked(
    config: Config,
    record: Record,
    part: int,
    outcomes: Seq<Outcome>,
    used: nat,
)
    requires
        config.no_copy,
    ensures
        !(replies_flow(config, record, part, outcomes, used) is Wanted),
        replies_flow(config, record, part, outcomes, used) == moved(
            replies_flow(config, record, part, Seq::empty(), 0),
            used,
        ),
    decreases record, 0int, 0int,
{
    let replies = record.replies->Ok_0@;
    if record.replies is Ok && part <= usize::MAX && replies.contains_key(part as usize) {
        lemma_thread_linked(config, replies[part as usize]@, outcomes, used);
        lemma_thread_linked(config, replies[part as usize]@, Seq::empty(), 0);
    }
}

proof fn lemma_parts_linked(
    config: Config,
    record: Record,
    count: nat,
    outcomes: Seq<Outcome>,
    used: nat,
)
    requires
        config.no_copy,
    ensures
        match parts_flow(config, record, count, Seq::empty(), 0) {
            Flow::Go((html, next, _)) => parts_flow(config, record, count, outcomes, used)
                == Flow::<(Seq<char>, nat, nat), Seq<char>>::Go((html, next, used)),
            Flow::Failed(_) => parts_flow(config, record, count, outcomes, used) == parts_flow(
                config,
                record,
                count,
                Seq::empty(),
                0,
            ),
            Flow::Wanted(_) => false,
        },
    decreases record, 1int, count,
{
    let none = Seq::<Outcome>::empty();
    if count > 0 {
        lemma_parts_linked(config, record, (count - 1) as nat, outcomes, used);
        lemma_parts_linked(config, record, (count - 1) as nat, none, 0);
        if let Flow::Go((_, next, _)) = parts_flow(config, record, (count - 1) as nat, none, 0) {
            let attachments = record.attachments->Ok_0@;
            let part = record.body@[count - 1]@;
            lemma_content_linked(config, record, attachments, part, next, outcomes, used);
            lemma_content_linked(config, record, attachments, part, next, none, 0);
            let reactions = record.reactions->Ok_0@;
            if count - 1 <= usize::MAX && reactions.contains_key((count - 1) as usize) {
                lemma_responses_linked(
                    config,
                    reactions[(count - 1) as usize]@,
                    outcomes,
                    used,
                );
                lemma_responses_linked(config, reactions[(count - 1) as usize]@, none, 0);
            }
            lemma_replies_linked(config, record, count - 1, outcomes, used);
            lemma_replies_linked(config, record, count - 1, none, 0);
        }
    }
}

/// Where attachments are linked where they are, rendering waits for no transfer, and no outcome
/// changes it.
pub proof fn law_linked_attachments_need_no_transfer(
    config: Config,
    record: Record,
    indent: nat,
    outcomes: Seq<Outcome>,
    used: nat,
)
    requires
        config.no_copy,
    ensures
        !(message_flow(config, record, indent, outcomes, used) is Wanted),
        message_flow(config, record, indent, outcomes, used) == moved(
            message_flow(config, record, indent, Seq::empty(), 0),
            used,
        ),
    decreases record, 2int, 0int,
{
    lemma_parts_linked(config, record, record.body@.len(), outcomes, used);
}

/// Whether the images of reactions could be loaded.
pub open spec fn responses_loaded(responses: Seq<Response>) -> bool {
    forall|i: int|
        0 <= i < responses.len() ==> !((#[trigger] responses[i]).mark matches Mark::Sticker(Err(_)))
}

/// Whether all that is shown with a message could be loaded.
pub open spec fn is_loaded(record: Record) -> bool
    decreases record,
{
    &&& record.attachments is Ok && record.replies is Ok && record.reactions is Ok
    &&& forall|part: usize| #[trigger]
        record.reactions->Ok_0@.contains_key(part) ==> responses_loaded(
            record.reactions->Ok_0@[part]@,
        )
    &&& forall|part: usize, i: int|
        record.replies->Ok_0@.contains_key(part) && 0 <= i < record.replies->Ok_0@[part]@.len()
            ==> is_loaded(#[trigger] record.replies->Ok_0@[part]@[i])
}

proof fn lemma_responses_do_not_fail(
    config: Config,
    responses: Seq<Response>,
    outcomes: Seq<Outcome>,
    used: nat,
)
    requires
        responses_loaded(responses),
    ensures
        !(responses_flow(config, responses, outcomes, used) is Failed),
    decreases responses.len(),
{
    if responses.len() > 0 {
        let last = responses[responses.len() - 1];
        assert(responses_loaded(responses.drop_last())) by {
            assert forall|i: int| 0 <= i < responses.drop_last().len() implies !((
            #[trigger] responses.drop_last()[i]).mark matches Mark::Sticker(Err(_))) by {
                assert(responses.drop_last()[i] == responses[i]);
            }
        }
        lemma_responses_do_not_fail(config, responses.drop_last(), outcomes, used);
        assert(!(last.mark matches Mark::Sticker(Err(_))));
    }
}

proof fn lemma_thread_does_not_fail(
    config: Config,
    replies: Seq<Record>,
    outcomes: Seq<Outcome>,
    used: nat,
)
    requires
        forall|i: int| 0 <= i < replies.len() ==> is_loaded(#[trigger] replies[i]),
    ensures
        !(thread_flow(config, replies, outcomes, used) is Failed),
    decreases replies, 0int, 0int,
{
    if replies.len() > 0 {
        assert forall|i: int| 0 <= i < replies.drop_last().len() implies is_loaded(
            #[trigger] replies.drop_last()[i],
        ) by {
            assert(replies.drop_last()[i] == replies[i]);
        }
        lemma_thread_does_not_fail(config, replies.drop_last(), outcomes, used);
        if let Flow::Go((_, after)) = thread_flow(config, replies.drop_last(), outcomes, used) {
            law_loaded_messages_do_not_fail(config, replies.last(), 1, outcomes, after);
        }
    }
}

proof fn lemma_parts_do_not_fail(
    config: Config,
    record: Record,
    count: nat,
    outcomes: Seq<Outcome>,
    used: nat,
)
    requires
        is_loaded(record),
    ensures
        !(parts_flow(config, record, count, outcomes, used) is Failed),
    decreases record, 1int, count,
{
    if count > 0 {
        lemma_parts_do_not_fail(config, record, (count - 1) as nat, outcomes, used);
        let part = count - 1;
        let reactions = record.reactions->Ok_0@;
        let replies = record.replies->Ok_0@;
        if let Flow::Go((_, next, after)) = parts_flow(
            config,
            record,
            (count - 1) as nat,
            outcomes,
            used,
        ) {
            let content = content_flow(
                config,
                record,
                record.attachments->Ok_0@,
                record.body@[part]@,
                next,
                outcomes,
                after,
            );
            assert(!(content is Failed));
            if let Flow::Go((_, _, after)) = content {
                if part <= usize::MAX && reactions.contains_key(part as usize) {
                    lemma_responses_do_not_fail(
                        config,
                        reactions[part as usize]@,
                        outcomes,
                        after,
                    );
                }
                if let Flow::Go((_, after)) = reactions_flow(
                    config,
                    record,
                    part,
                    outcomes,
                    after,
                ) {
                    if part <= usize::MAX && replies.contains_key(part as usize) {
                        lemma_thread_does_not_fail(
                            config,
                            replies[part as usize]@,
                            outcomes,
                            after,
                        );
                    }
                    assert(!(replies_flow(config, record, part, outcomes, after) is Failed));
                }
                assert(!(reactions_flow(config, record, part, outcomes, after) is Failed));
            }
        }
    }
}

/// The rendering of a message does not fail where all that is shown with it could be loaded.
pub proof fn law_loaded_messages_do_not_fail(
    config: Config,
    record: Record,
    indent: nat,
    outcomes: Seq<Outcome>,
    used: nat,
)
    requires
        is_loaded(record),
    ensures
        !(message_flow(config, record, indent, outcomes, used) is Failed),
    decreases record, 2int, 0int,
{
    lemma_parts_do_not_fail(config, record, record.body@.len(), outcomes, used);
}

/// Replies that are reactions are not shown among the replies.
pub proof fn law_reactions_are_no_replies(
    config: Config,
    replies: Seq<Record>,
    outcomes: Seq<Outcome>,
    used: nat,
)
    ensures
        thread_flow(config, replies, outcomes, used) == thread_flow(
            config,
            replies.filter(|reply: Record| !is_reaction(reply)),
            outcomes,
            used,
        ),
    decreases replies.len(),
{
    reveal(Seq::filter);
    let shown = |reply: Record| !is_reaction(reply);
    if replies.len() > 0 {
        law_reactions_are_no_replies(config, replies.drop_last(), outcomes, used);
        let before = replies.drop_last().filter(shown);
        if shown(replies.last()) {
            assert(replies.filter(shown).drop_last() == before);
        }
    }
}

/// Whether a reaction was taken back.
pub open spec fn is_taken_back(response: Response) -> bool {
    response.mark matches Mark::Reaction(added, _) && !added
}

/// Reactions that were taken back are not shown.
pub proof fn law_reactions_taken_back_are_not_shown(
    config: Config,
    responses: Seq<Response>,
    outcomes: Seq<Outcome>,
    used: nat,
)
    ensures
        responses_flow(config, responses, outcomes, used) == responses_flow(
            config,
            responses.filter(|response: Response| !is_taken_back(response)),
            outcomes,
            used,
        ),
    decreases responses.len(),
{
    reveal(Seq::filter);
    let shown = |response: Response| !is_taken_back(response);
    if responses.len() > 0 {
        law_reactions_taken_back_are_not_shown(config, responses.drop_last(), outcomes, used);
        let before = responses.drop_last().filter(shown);
        if shown(responses.last()) {
            assert(responses.filter(shown).drop_last() == before);
        } else if let Flow::Go((html, after)) = responses_flow(
            config,
            responses.drop_last(),
            outcomes,
            used,
        ) {
            assert(html + Seq::<char>::empty() == html);
        }
    }
}

/// A message that is put on another one is not shown on its own, unless it names the conversation.
pub proof fn law_reactions_are_not_exported_alone(message: Message)
    requires
        is_mark(message.date_edited, message.associated_message_type),
        message.associated_message_guid is Some || message.associated_message_type != 1000,
    ensures
        message.entry_kind() == (if message.group_title is Some {
            Entry::Announcement
        } else {
            Entry::Reaction
        }),
{
}

/// A message that is shown on its own is also shown among the replies to another one, and the
/// other way round.
pub proof fn law_replies_are_messages(record: Record)
    requires
        record.variant@ == record.message.kind(),
        record.message.group_title is None,
    ensures
        is_reaction(record) <==> record.message.entry_kind() is Reaction,
{
}

/// What every message begins with.
pub open spec fn message_start() -> Seq<char> {
    "<div class=\"message\">"@ + "\n"@
}

/// What every message ends with.
pub open spec fn message_end() -> Seq<char> {
    "</div>"@ + "\n"@ + "</div>"@ + "\n"@
}

/// What stands before a text leaves its end as it is, and what stands after it, its beginning.
proof fn lemma_ends_stay(text: Seq<char>, more: Seq<char>, end: Seq<char>)
    ensures
        begins_with(text, end) ==> begins_with(text + more, end),
        ends_with(text, end) ==> ends_with(more + text, end),
{
    if begins_with(text, end) {
        assert((text + more).take(end.len() as int) == text.take(end.len() as int));
    }
    if ends_with(text, end) {
        assert((more + text).skip(more.len() + text.len() - end.len()) == text.skip(
            text.len() - end.len(),
        ));
    }
}

/// What a message says of being a reply.
pub open spec fn note_of(record: Record, indent: nat) -> Seq<char> {
    if record.message.thread_originator_guid is Some && indent == 0 {
        reply_note()
    } else {
        Seq::empty()
    }
}

proof fn lemma_message_tail(record: Record, indent: nat)
    ensures
        message_tail(record, indent) == note_of(record, indent) + message_end(),
{
    reveal_strlit("");
    reveal_strlit("</div>");
    let note = note_of(record, indent);
    let end = line("</div>"@, ""@, ""@);
    assert(end == "</div>"@ + "\n"@);
    assert(note + end + end == note + message_end());
}

proof fn lemma_message_ends(record: Record, indent: nat)
    ensures
        begins_with(message_head(record), message_start()),
        ends_with(message_tail(record, indent), message_end()),
{
    reveal_strlit("");
    reveal_strlit("<div class=\"message\">");
    let none = Seq::<char>::empty();
    let start = line("<div class=\"message\">"@, ""@, ""@);
    assert(start == message_start());
    assert(start.take(start.len() as int) == start);
    let direction = if record.message.is_from_me {
        line("<div class=\"sent "@ + record.service@ + "\">"@, ""@, ""@)
    } else {
        line("<div class=\"received\">"@, ""@, ""@)
    };
    let time = line(
        stamp_text(record.date@, optional(record.read_after), record.message.is_from_me),
        "<p><span class=\"timestamp\">"@,
        "</span>"@,
    );
    let sender = line(record.sender@, "<span class=\"sender\">"@, "</span></p>"@);
    let subject = match record.message.subject {
        Some(subject) => line(
            subject@,
            "<p>Subject: <span class=\"subject\">"@,
            "</span></p>"@,
        ),
        None => none,
    };
    lemma_ends_stay(start, direction, message_start());
    lemma_ends_stay(start + direction, time, message_start());
    lemma_ends_stay(start + direction + time, sender, message_start());
    lemma_ends_stay(start + direction + time + sender, subject, message_start());
    lemma_message_tail(record, indent);
    assert(message_end().skip(0) == message_end());
    lemma_ends_stay(message_end(), note_of(record, indent), message_end());
}

/// Every rendered message is one block.
pub proof fn law_messages_are_blocks(
    config: Config,
    record: Record,
    indent: nat,
    outcomes: Seq<Outcome>,
    used: nat,
)
    ensures
        message_flow(config, record, indent, outcomes, used) matches Flow::Go((html, _))
            ==> begins_with(html, message_start()) && ends_with(html, message_end()),
{
    if let Flow::Go((html, _)) = message_flow(config, record, indent, outcomes, used) {
        let (parts, _, _) = parts_flow(config, record, record.body@.len(), outcomes, used)->Go_0;
        let head = message_head(record);
        let tail = message_tail(record, indent);
        lemma_message_ends(record, indent);
        lemma_ends_stay(head, parts, message_start());
        lemma_ends_stay(head + parts, tail, message_start());
        lemma_ends_stay(tail, head + parts, message_end());
    }
}

/// What a reply that is shown on its own says of itself.
pub open spec fn reply_note() -> Seq<char> {
    line(
        "This message responded to an earlier message."@,
        "<span class=\"reply_context\">"@,
        "</span>"@,
    )
}

/// A reply says that it is one only where it is shown on its own; any other message is the same
/// wherever it is shown.
pub proof fn law_replies_say_so_on_their_own(
    config: Config,
    record: Record,
    indent: nat,
    outcomes: Seq<Outcome>,
    used: nat,
)
    requires
        indent != 0,
    ensures
        record.message.thread_originator_guid is None ==> message_flow(
            config,
            record,
            0,
            outcomes,
            used,
        ) == message_flow(config, record, indent, outcomes, used),
        record.message.thread_originator_guid is Some ==> match (
            message_flow(config, record, 0, outcomes, used),
            message_flow(config, record, indent, outcomes, used),
        ) {
            (Flow::Go((alone, after)), Flow::Go((below, then_after))) => {
                &&& after == then_after
                &&& exists|opening: Seq<char>|
                    #![trigger opening.add(message_end())]
                    alone == opening.add(reply_note()).add(message_end()) && below == opening.add(
                        message_end(),
                    )
            },
            (Flow::Failed(why), Flow::Failed(reason)) => why == reason,
            (Flow::Wanted(transfer), Flow::Wanted(other)) => transfer == other,
            _ => false,
        },
{
    lemma_message_tail(record, 0);
    lemma_message_tail(record, indent);
    if record.message.thread_originator_guid is Some {
        if let Flow::Go((alone, _)) = message_flow(config, record, 0, outcomes, used) {
            if let Flow::Go((below, _)) = message_flow(config, record, indent, outcomes, used) {
                let (parts, _, _) = parts_flow(
                    config,
                    record,
                    record.body@.len(),
                    outcomes,
                    used,
                )->Go_0;
                let opening = message_head(record) + parts;
                assert(message_tail(record, indent) == message_end());
                assert(alone == opening.add(reply_note()).add(message_end()));
                assert(below == opening.add(message_end()));
            }
        }
    }
}

/// Whether `html` is a link to `url` where there is an address, and else a block.
pub open spec fn is_framed(html: Seq<char>, url: Option<String>) -> bool {
    match url {
        Some(url) => begins_with(html, "<a href=\""@ + url@ + "\">"@) && ends_with(html, "</a>"@),
        None => begins_with(html, "<div class=\"app_header\">"@) && ends_with(html, "</div>"@),
    }
}

proof fn lemma_framed(url: Option<String>, header: Seq<char>, footer: Seq<char>)
    requires
        footer.len() > 0 ==> ends_with(footer, "</div>"@),
    ensures
        is_framed(framed_html(url, header, footer), url),
{
    let html = framed_html(url, header, footer);
    let start = link_start(url) + "<div class=\"app_header\">"@;
    let before = start + header + "</div>"@;
    assert(html.take(start.len() as int) == start);
    if url is Some {
        assert(start.take(link_start(url).len() as int) == link_start(url));
        assert(html.take(link_start(url).len() as int) == start.take(link_start(url).len() as int));
        assert(html.skip(html.len() - "</a>"@.len()) == "</a>"@);
    } else {
        let end = "</div>"@;
        assert(start == "<div class=\"app_header\">"@);
        assert(html == before + footer);
        if footer.len() == 0 {
            assert(html == before);
            assert(html.skip(html.len() - end.len()) == end);
        } else {
            assert(html.skip(html.len() - end.len()) == footer.skip(footer.len() - end.len()));
        }
    }
}

/// A link preview is a link where it has an address, from its first to its last character, and
/// else a block.
pub proof fn law_link_previews_are_links(balloon: URLMessage)
    ensures
        is_framed(url_html(balloon), balloon.url),
{
    let footer = url_footer(balloon);
    if footer.len() > 0 {
        assert(footer.skip(footer.len() - "</div>"@.len()) == "</div>"@);
    }
    lemma_framed(balloon.url, images_html(balloon.images@), footer);
}

/// A balloon is a link where it has an address, from its first to its last character, and else a
/// block.
pub proof fn law_balloons_are_links(
    balloon: AppMessage,
    bundle_id: Seq<char>,
    picture: Seq<char>,
)
    ensures
        is_framed(balloon_html(balloon, bundle_id, picture), balloon.url),
{
    let footer = app_footer(balloon);
    if footer.len() > 0 {
        assert(footer.skip(footer.len() - "</div>"@.len()) == "</div>"@);
    }
    lemma_framed(balloon.url, app_header(balloon, bundle_id, picture), footer);
}

/// Nothing is said of a message being read where it was read before its date, or within the same
/// second.
pub proof fn law_early_reads_are_not_told(
    date_text: Seq<char>,
    time: Option<Seq<char>>,
    date: i64,
    end: i64,
    offset: i64,
    is_from_me: bool,
)
    requires
        is_delay(time, date, end, offset),
        seconds_of(end) <= seconds_of(date),
    ensures
        stamp_text(date_text, time, is_from_me) == date_text,
{
}

/// Of a message that was read in a second after its date, where both are in the calendar, the span
/// between the two is told.
pub proof fn law_later_reads_are_told(
    date_text: Seq<char>,
    time: Option<Seq<char>>,
    date: i64,
    end: i64,
    offset: i64,
    is_from_me: bool,
)
    requires
        is_delay(time, date, end, offset),
        date != 0,
        end != 0,
        seconds_of(date) < seconds_of(end),
        is_in_calendar(seconds_of(date) + offset),
        is_in_calendar(seconds_of(end) + offset),
    ensures
        stamp_text(date_text, time, is_from_me) == date_text + " (Read by "@ + (if is_from_me {
            "them"@
        } else {
            "you"@
        }) + " after "@ + span_text(seconds_of(end) - seconds_of(date)) + ")"@,
{
    assert(span_text(seconds_of(end) - seconds_of(date)).len() > 0);
}

/// A picture that cannot be converted is not lost: the page says so in its place.
pub proof fn law_failed_conversions_are_noted(
    config: Config,
    attachment: Attachment,
    outcomes: Seq<Outcome>,
    used: nat,
)
    requires
        attachment.filename is Some,
        attachment.extension is Some && is_heic(attachment.extension->0@),
    ensures
        !(attachment_piece(config, attachment, outcomes, used).0 is Lost),
        !config.no_copy && used < outcomes.len() && outcomes[used as int] is Missing
            ==> attachment_piece(config, attachment, outcomes, used) == (
            Piece::<Seq<char>>::Html(
                "Unable to convert and display file: "@ + attachment.transfer_name@,
            ),
            used + 1,
        ),
{
}

/// The text of a message stands for a link preview that cannot be read, so that a link with a text
/// is shown unless the references of its payload lead nowhere.
pub proof fn law_links_fall_back_on_their_text(
    config: Config,
    record: Record,
    attachments: Seq<Attachment>,
    outcomes: Seq<Outcome>,
    used: nat,
)
    requires
        record.variant@ matches Variant::App(kind) && is_link(kind),
        record.message.text is Some,
        !(record.payload matches Some(Err(_))),
    ensures
        app_bubble(config, record, attachments, outcomes, used).0 is Html,
        record.payload is None || record.payload->0->Ok_0.url is Err ==> app_bubble(
            config,
            record,
            attachments,
            outcomes,
            used,
        ) == (Bubble::<Seq<char>>::Html(record.message.text->0@), used),
{
}

/// How many of the first `count` parts of a message are attachments.
pub open spec fn attachment_parts(record: Record, count: nat) -> nat
    decreases count,
{
    if count == 0 {
        0
    } else {
        attachment_parts(record, (count - 1) as nat) + (if record.body@[count - 1] is Attachment {
            1nat
        } else {
            0
        })
    }
}

/// The attachments of a message are shown in their order, and never more of them than the message
/// has parts that show one.
pub proof fn law_attachments_take_turns(
    config: Config,
    record: Record,
    count: nat,
    outcomes: Seq<Outcome>,
    used: nat,
)
    ensures
        parts_flow(config, record, count, outcomes, used) matches Flow::Go((_, next, _)) ==> next
            <= attachment_parts(record, count) && next <= record.attachments->Ok_0@.len(),
    decreases count,
{
    if count > 0 {
        law_attachments_take_turns(config, record, (count - 1) as nat, outcomes, used);
    }
}

/// Where no attachment is lost, each part that shows one shows the next, until there is none left:
/// no attachment is passed over or shown twice.
pub proof fn law_attachments_are_not_passed_over(
    config: Config,
    record: Record,
    count: nat,
    outcomes: Seq<Outcome>,
    used: nat,
)
    requires
        forall|i: int|
            0 <= i < record.attachments->Ok_0@.len() ==> (
            #[trigger] record.attachments->Ok_0@[i]).filename is Some,
        config.no_copy || {
            &&& forall|i: int|
                0 <= i < record.attachments->Ok_0@.len() ==> (
                #[trigger] record.attachments->Ok_0@[i]).extension is Some
            &&& forall|i: int| 0 <= i < outcomes.len() ==> (#[trigger] outcomes[i]) is Stored
        },
    ensures
        parts_flow(config, record, count, outcomes, used) matches Flow::Go((_, next, _)) ==> next
            == (if attachment_parts(record, count) < record.attachments->Ok_0@.len() {
            attachment_parts(record, count)
        } else {
            record.attachments->Ok_0@.len()
        }),
    decreases count,
{
    if count > 0 {
        law_attachments_are_not_passed_over(config, record, (count - 1) as nat, outcomes, used);
        if let Flow::Go((_, next, from)) = parts_flow(
            config,
            record,
            (count - 1) as nat,
            outcomes,
            used,
        ) {
            let attachments = record.attachments->Ok_0@;
            if next < attachments.len() {
                let attachment = attachments[next as int];
                assert(attachment.filename is Some);
                assert(!config.no_copy ==> attachment.extension is Some);
                if from < outcomes.len() {
                    assert(!config.no_copy ==> outcomes[from as int] is Stored);
                }
            }
        }
    }
}

/// How many characters of a text are the given one.
pub open spec fn occurrences(text: Seq<char>, c: char) -> nat
    decreases text.len(),
{
    if text.len() == 0 {
        0
    } else {
        occurrences(text.skip(1), c) + (if text[0] == c {
            1nat
        } else {
            0
        })
    }
}

/// How many of the parts of a message are the given one.
pub open spec fn part_count(
    parts: Seq<BubbleType<Seq<char>>>,
    part: BubbleType<Seq<char>>,
) -> nat
    decreases parts.len(),
{
    if parts.len() == 0 {
        0
    } else {
        part_count(parts.skip(1), part) + (if parts[0] == part {
            1nat
        } else {
            0
        })
    }
}

/// Each character that stands for an attachment gives one part that is an attachment, and each
/// that stands for an app gives one that is an app. No other part is either.
pub proof fn law_marks_give_parts(
    rest: Seq<char>,
    run: Seq<char>,
    trim: spec_fn(Seq<char>) -> Seq<char>,
)
    ensures
        part_count(parts_from(rest, run, trim), BubbleType::Attachment) == occurrences(
            rest,
            '\u{FFFC}',
        ),
        part_count(parts_from(rest, run, trim), BubbleType::App) == occurrences(rest, '\u{FFFD}'),
    decreases rest.len(),
{
    reveal_with_fuel(part_count, 3);
    let parts = parts_from(rest, run, trim);
    if rest.len() == 0 {
        if run.len() > 0 {
            assert(parts.skip(1).len() == 0);
        }
    } else if let Some(part) = marked_part(rest[0]) {
        let after = parts_from(rest.skip(1), Seq::empty(), trim);
        law_marks_give_parts(rest.skip(1), Seq::empty(), trim);
        if run.len() > 1 {
            assert(parts[1] == part);
            assert(parts.skip(1)[0] == part);
            assert(parts.skip(1).skip(1) == after);
        } else {
            assert(parts.skip(1) == after);
        }
    } else {
        law_marks_give_parts(rest.skip(1), run.push(rest[0]), trim);
    }
}

/// A message that names its conversation is announced. Any other is a reaction where it is put on
/// another one: by one of the twelve kinds of reactions, or as a sticker that says on which message
/// it is. All else is a message on its own. One that was edited is no reaction.
pub proof fn law_messages_are_announced_shown_or_put_on_others(message: Message)
    ensures
        message.entry_kind() is Announcement <==> message.group_title is Some,
        message.entry_kind() is Reaction <==> {
            &&& message.group_title is None
            &&& message.date_edited == 0
            &&& 2000 <= message.associated_message_type <= 2005 || 3000
                <= message.associated_message_type <= 3005 || (message.associated_message_type
                == 1000 && message.associated_message_guid is Some)
        },
{
}

/// A message can be told from others unless it is put on another one by an identifier that begins
/// with `p:` and names no part.
pub proof fn law_sound_messages_name_their_part(message: Message)
    ensures
        !message.is_sound() <==> {
            &&& message.date_edited == 0
            &&& message.associated_message_type == 1000 || 2000 <= message.associated_message_type
                <= 2005 || 3000 <= message.associated_message_type <= 3005
            &&& message.associated_message_guid matches Some(guid) && begins_with(guid@, "p:"@)
                && !guid@.contains('/')
        },
{
}

/// The kind of a message, and how long it stayed unread, go by its own columns; by the text only
/// where a link is told from one to music.
pub proof fn law_messages_are_told_by_their_columns(message: Message, offset: i64)
    ensures
        message.kind() == variant_of(
            message.date_edited,
            message.associated_message_type,
            optional(message.balloon_bundle_id),
            optional(message.text),
        ),
        message.date_edited != 0 ==> message.kind() is Edited,
        message.date_edited == 0 && message.associated_message_type == 0
            && message.balloon_bundle_id is None ==> message.kind() is Normal,
        message.delay(offset) == read_delay(
            message.is_from_me,
            message.date,
            message.date_read,
            message.date_delivered,
            offset,
        ),
{
}

/// What was sent counts as read when it was delivered, and what was received, when it was read.
pub proof fn law_sent_messages_are_read_when_delivered(message: Message)
    ensures
        message.is_from_me ==> message.read_date() == message.date_delivered,
        !message.is_from_me ==> message.read_date() == message.date_read,
{
}

/// A reaction that a sound message is says of the other message what its number stands for, and
/// whether that was added: the same words of a reaction that was taken back.
pub proof fn law_reactions_are_added_or_taken_back(message: Message, other: Message)
    requires
        message.date_edited == 0,
        other.date_edited == 0,
        2000 <= message.associated_message_type <= 2005,
        other.associated_message_type == message.associated_message_type + 1000,
    ensures
        message.kind() matches Variant::Reaction(added, label) && added && (
        other.kind() matches Variant::Reaction(kept, word) && !kept && word == label),
{
}

/// Dates count in whole seconds, cut towards the epoch. A message can be dated where its seconds
/// and the offset have a sum, and the time until it was read can be told where both dates have one;
/// a date that is not there is not looked at.
pub proof fn law_dates_fit_where_their_sums_do(message: Message, offset: i64)
    ensures
        ({
            let seconds = seconds_of(message.date);
            let rest = message.date - seconds * 1_000_000_000;
            &&& message.date >= 0 ==> 0 <= rest < 1_000_000_000
            &&& message.date <= 0 ==> -1_000_000_000 < rest <= 0
        }),
        date_fits(message.date, offset) <==> -0x8000_0000_0000_0000 <= seconds_of(message.date)
            + offset < 0x8000_0000_0000_0000,
        message.dates_fit(offset) <==> date_fits(message.date, offset) && (message.date == 0
            || message.read_date() == 0 || date_fits(message.read_date(), offset)),
{
}

} // verus!
