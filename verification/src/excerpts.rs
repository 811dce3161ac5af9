//! What a text holds, and in what order.

use vstd::prelude::*;

#[allow(unused_imports)]
use crate::html::line;

verus! {

/// Whether `piece` stands in `text` from character number `at` on.
pub open spec fn stands_at(text: Seq<char>, piece: Seq<char>, at: int) -> bool {
    0 <= at && at + piece.len() <= text.len() && text.subrange(at, at + piece.len()) == piece
}

/// Whether `piece` stands somewhere in `text`.
pub open spec fn holds(text: Seq<char>, piece: Seq<char>) -> bool {
    exists|at: int| #[trigger] stands_at(text, piece, at)
}

/// Whether all of `pieces` stand in `text`, one behind the other and none inside another.
pub open spec fn holds_in_order(text: Seq<char>, pieces: Seq<Seq<char>>) -> bool
    decreases pieces.len(),
{
    pieces.len() == 0 || exists|at: int|
        #[trigger] stands_at(text, pieces[0], at) && holds_in_order(
            text.skip(at + pieces[0].len()),
            pieces.skip(1),
        )
}

/// A text between `pre` and `post`; nothing where there is no text.
pub open spec fn between(pre: Seq<char>, text: Option<String>, post: Seq<char>) -> Seq<char> {
    if text is Some {
        pre + text->0@ + post
    } else {
        Seq::empty()
    }
}

/// Texts, one behind the other, each between `pre` and `post`.
pub open spec fn listed_between(
    texts: Seq<Seq<char>>,
    pre: Seq<char>,
    post: Seq<char>,
) -> Seq<char>
    decreases texts.len(),
{
    if texts.len() == 0 {
        Seq::empty()
    } else {
        listed_between(texts.drop_last(), pre, post) + pre + texts.last() + post
    }
}

/// Texts, one behind the other.
pub open spec fn joined(pieces: Seq<Seq<char>>) -> Seq<char>
    decreases pieces.len(),
{
    if pieces.len() == 0 {
        Seq::empty()
    } else {
        pieces[0] + joined(pieces.skip(1))
    }
}

/// Whether `text` is made of `pieces`, in their order, and of nothing else.
pub open spec fn is_made_of(text: Seq<char>, pieces: Seq<Seq<char>>) -> bool {
    text == joined(pieces)
}

/// How many characters texts have together.
pub open spec fn total(pieces: Seq<Seq<char>>) -> nat
    decreases pieces.len(),
{
    if pieces.len() == 0 {
        0
    } else {
        pieces[0].len() + total(pieces.skip(1))
    }
}

/// A text holds what stands between its beginning and its end.
pub proof fn lemma_holds(before: Seq<char>, piece: Seq<char>, behind: Seq<char>)
    ensures
        holds(before + piece + behind, piece),
{
    let text = before + piece + behind;
    let at = before.len() as int;
    assert(text.subrange(at, at + piece.len()) == piece);
    assert(stands_at(text, piece, at));
}

/// What a part of a text holds, the whole holds.
pub proof fn lemma_holds_within(
    before: Seq<char>,
    text: Seq<char>,
    behind: Seq<char>,
    piece: Seq<char>,
)
    requires
        holds(text, piece),
    ensures
        holds(before + text + behind, piece),
{
    let at = choose|at: int| #[trigger] stands_at(text, piece, at);
    let whole = before + text + behind;
    let later = before.len() + at;
    assert(whole.subrange(later, later + piece.len()) == text.subrange(at, at + piece.len()));
    assert(stands_at(whole, piece, later));
}

/// What holds a text holds all that the text holds.
pub proof fn lemma_holds_through(whole: Seq<char>, text: Seq<char>, piece: Seq<char>)
    requires
        holds(whole, text),
        holds(text, piece),
    ensures
        holds(whole, piece),
{
    let at = choose|at: int| #[trigger] stands_at(whole, text, at);
    let before = whole.take(at);
    let behind = whole.skip(at + text.len());
    assert(whole == before + text + behind);
    lemma_holds_within(before, text, behind, piece);
}

/// Where a text begins with a piece, the pieces that the rest holds follow it.
pub proof fn lemma_order(
    before: Seq<char>,
    piece: Seq<char>,
    behind: Seq<char>,
    pieces: Seq<Seq<char>>,
)
    requires
        pieces.len() > 0,
        pieces[0] == piece,
        holds_in_order(behind, pieces.skip(1)),
    ensures
        holds_in_order(before + piece + behind, pieces),
{
    let text = before + piece + behind;
    let at = before.len() as int;
    assert(text.subrange(at, at + piece.len()) == piece);
    assert(text.skip(at + piece.len()) == behind);
    assert(stands_at(text, pieces[0], at));
}

/// What a text is made of, it holds.
pub proof fn lemma_made_holds(text: Seq<char>, pieces: Seq<Seq<char>>, at: int)
    requires
        is_made_of(text, pieces),
        0 <= at < pieces.len(),
    ensures
        holds(text, pieces[at]),
    decreases pieces.len(),
{
    let none = Seq::<char>::empty();
    let rest = joined(pieces.skip(1));
    if at == 0 {
        assert(text == none + pieces[0] + rest);
        lemma_holds(none, pieces[0], rest);
    } else {
        lemma_made_holds(rest, pieces.skip(1), at - 1);
        assert(pieces.skip(1)[at - 1] == pieces[at]);
        assert(text == pieces[0] + rest + none);
        lemma_holds_within(pieces[0], rest, none, pieces[at]);
    }
}

/// Six texts, one behind the other.
pub proof fn lemma_six(
    a: Seq<char>,
    b: Seq<char>,
    c: Seq<char>,
    d: Seq<char>,
    e: Seq<char>,
    f: Seq<char>,
)
    ensures
        a + b + c + d + e + f == joined(seq![a, b, c, d, e, f]),
{
    reveal_with_fuel(joined, 7);
    let pieces = seq![a, b, c, d, e, f];
    assert(pieces.skip(1) == seq![b, c, d, e, f]);
    assert(seq![b, c, d, e, f].skip(1) == seq![c, d, e, f]);
    assert(seq![c, d, e, f].skip(1) == seq![d, e, f]);
    assert(seq![d, e, f].skip(1) == seq![e, f]);
    assert(seq![e, f].skip(1) == seq![f]);
    assert(seq![f].skip(1).len() == 0);
    assert(a + b + c + d + e + f == a + (b + (c + (d + (e + (f + Seq::<char>::empty()))))));
}

/// A line that is not empty holds its part between `pre` and `post`, and ends there.
pub proof fn lemma_line(part: Seq<char>, pre: Seq<char>, post: Seq<char>)
    ensures
        part.len() > 0 ==> line(part, pre, post) == pre + part + (post + "\n"@),
        part.len() == 0 ==> line(part, pre, post) == Seq::<char>::empty(),
{
    if part.len() > 0 {
        assert(pre + part + post + "\n"@ == pre + part + (post + "\n"@));
    }
}

/// What ends a block.
pub proof fn lemma_block_end()
    ensures
        "</div>"@ + "\n"@ == "</div>\n"@,
        line("</div>"@, ""@, ""@) == "</div>\n"@,
{
    reveal_strlit("</div>");
    reveal_strlit("\n");
    reveal_strlit("</div>\n");
    reveal_strlit("");
    assert("</div>"@ + "\n"@ == "</div>\n"@);
    lemma_line("</div>"@, ""@, ""@);
    assert(""@ + "</div>"@ + (""@ + "\n"@) == "</div>\n"@);
}

/// A line that has nothing around its part is the part.
pub proof fn lemma_plain_line(part: Seq<char>)
    ensures
        part.len() > 0 ==> line(part, ""@, ""@) == part + "\n"@,
{
    reveal_strlit("");
    lemma_line(part, ""@, ""@);
    assert(""@ + part + (""@ + "\n"@) == part + "\n"@);
}

} // verus!
