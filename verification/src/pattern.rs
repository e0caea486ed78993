//! The pattern match of the store: what `text LIKE pattern` means, and what
//! it comes to for a value wrapped in wildcards.
//!
//! In a pattern `%` stands for any run of characters, `_` for any one
//! character, and every other character for itself, where the letters `A` to
//! `Z` and `a` to `z` stand for themselves in either case.

use crate::query::wrapped;
use vstd::prelude::*;

verus! {

/// The code of a character with the case of the letters `A` to `Z` folded
/// away.
pub open spec fn folded(c: char) -> int {
    if 'A' as int <= c as int <= 'Z' as int {
        c as int + 32
    } else {
        c as int
    }
}

/// Whether two characters are the same up to the case of the letters `A` to
/// `Z`.
pub open spec fn same_letter(a: char, b: char) -> bool {
    folded(a) == folded(b)
}

/// Whether the character is one of the two wildcards.
pub open spec fn is_wildcard(c: char) -> bool {
    c == '%' || c == '_'
}

/// Whether the text holds no wildcard.
pub open spec fn is_literal(text: Seq<char>) -> bool {
    forall|i: int| 0 <= i < text.len() ==> !is_wildcard(#[trigger] text[i])
}

/// Whether the whole of `text` matches `pattern`.
pub open spec fn like(pattern: Seq<char>, text: Seq<char>) -> bool
    decreases pattern.len() + text.len(),
{
    if pattern.len() == 0 {
        text.len() == 0
    } else if pattern[0] == '%' {
        like(pattern.drop_first(), text) || (text.len() > 0 && like(pattern, text.drop_first()))
    } else if text.len() == 0 {
        false
    } else if pattern[0] == '_' {
        like(pattern.drop_first(), text.drop_first())
    } else {
        same_letter(pattern[0], text[0]) && like(pattern.drop_first(), text.drop_first())
    }
}

/// Whether `part` stands in `text` at `start`, up to the case of letters.
pub open spec fn stands_at(text: Seq<char>, start: int, part: Seq<char>) -> bool {
    &&& 0 <= start
    &&& start + part.len() <= text.len()
    &&& forall|i: int| 0 <= i < part.len() ==> same_letter(#[trigger] part[i], text[start + i])
}

/// Whether `part` occurs in `text` as a run of consecutive characters, up to
/// the case of letters.
pub open spec fn contains_folded(text: Seq<char>, part: Seq<char>) -> bool {
    exists|start: int| stands_at(text, start, part)
}

/// The lone wildcard `%` matches every text.
pub proof fn lemma_like_anything(text: Seq<char>)
    ensures
        like(seq!['%'], text),
    decreases text.len(),
{
    let pattern = seq!['%'];
    assert(pattern.drop_first() =~= Seq::<char>::empty());
    if text.len() > 0 {
        lemma_like_anything(text.drop_first());
    } else {
        assert(like(Seq::<char>::empty(), text));
    }
}

/// A pattern that begins with `%` matches a text exactly where the rest of
/// the pattern matches the text from some place on.
pub proof fn lemma_like_after_percent(rest: Seq<char>, text: Seq<char>)
    ensures
        like(seq!['%'] + rest, text) <==> exists|from: int|
            0 <= from <= text.len() && like(rest, #[trigger] text.skip(from)),
    decreases text.len(),
{
    let pattern = seq!['%'] + rest;
    assert(pattern.drop_first() =~= rest);
    assert(text.skip(0) =~= text);
    if text.len() > 0 {
        let tail = text.drop_first();
        lemma_like_after_percent(rest, tail);
        assert forall|from: int| 0 <= from <= tail.len() implies #[trigger] tail.skip(from)
            == text.skip(from + 1) by {
            assert(tail.skip(from) =~= text.skip(from + 1));
        }
        if like(pattern, text) && !like(rest, text) {
            let from = choose|from: int| 0 <= from <= tail.len() && like(rest, tail.skip(from));
            assert(like(rest, text.skip(from + 1)));
        }
        if exists|from: int| 0 <= from <= text.len() && like(rest, #[trigger] text.skip(from)) {
            let from = choose|from: int|
                0 <= from <= text.len() && like(rest, #[trigger] text.skip(from));
            if from > 0 {
                assert(tail.skip(from - 1) == text.skip(from));
                assert(like(rest, tail.skip(from - 1)));
            }
        }
    } else {
        if exists|from: int| 0 <= from <= text.len() && like(rest, #[trigger] text.skip(from)) {
            let from = choose|from: int|
                0 <= from <= text.len() && like(rest, #[trigger] text.skip(from));
            assert(from == 0);
        }
    }
}

/// A pattern that begins with characters that are no wildcards matches a
/// text exactly where those characters stand at the head of the text, up to
/// the case of letters, and the rest of the pattern matches the rest of the
/// text.
pub proof fn lemma_like_after_literal(head: Seq<char>, rest: Seq<char>, text: Seq<char>)
    requires
        is_literal(head),
    ensures
        like(head + rest, text) <==> stands_at(text, 0, head) && like(rest, text.skip(head.len() as int)),
    decreases head.len(),
{
    if head.len() == 0 {
        assert(head + rest =~= rest);
        assert(text.skip(0) =~= text);
    } else {
        let pattern = head + rest;
        assert(pattern[0] == head[0]);
        assert(!is_wildcard(head[0]));
        assert(pattern.drop_first() =~= head.drop_first() + rest);
        if text.len() > 0 {
            let tail = text.drop_first();
            assert(is_literal(head.drop_first())) by {
                assert forall|i: int| 0 <= i < head.drop_first().len() implies !is_wildcard(
                    #[trigger] head.drop_first()[i],
                ) by {
                    assert(head.drop_first()[i] == head[i + 1]);
                }
            }
            lemma_like_after_literal(head.drop_first(), rest, tail);
            if head.len() <= text.len() {
                assert(tail.skip(head.len() - 1) =~= text.skip(head.len() as int));
            }
            if stands_at(text, 0, head) {
                assert(same_letter(head[0], text[0int + 0]));
                assert forall|i: int| 0 <= i < head.drop_first().len() implies same_letter(
                    #[trigger] head.drop_first()[i],
                    tail[0int + i],
                ) by {
                    assert(same_letter(head[i + 1], text[0int + (i + 1)]));
                }
            }
            if same_letter(head[0], text[0]) && stands_at(tail, 0, head.drop_first()) {
                assert forall|i: int| 0 <= i < head.len() implies same_letter(
                    #[trigger] head[i],
                    text[0int + i],
                ) by {
                    if i > 0 {
                        assert(same_letter(head.drop_first()[i - 1], tail[0int + (i - 1)]));
                    }
                }
            }
        }
    }
}

/// A value without wildcards, wrapped in `%`, matches exactly the texts that
/// contain the value, up to the case of letters.
pub proof fn lemma_like_wrapped(value: Seq<char>, text: Seq<char>)
    requires
        is_literal(value),
    ensures
        like(wrapped(value), text) <==> contains_folded(text, value),
{
    let rest = value + seq!['%'];
    assert(wrapped(value) =~= seq!['%'] + rest);
    lemma_like_after_percent(rest, text);
    assert forall|from: int| 0 <= from <= text.len() implies (like(rest, #[trigger] text.skip(from))
        <==> stands_at(text, from, value)) by {
        let tail = text.skip(from);
        lemma_like_after_literal(value, seq!['%'], tail);
        if stands_at(tail, 0, value) {
            lemma_like_anything(tail.skip(value.len() as int));
            assert forall|i: int| 0 <= i < value.len() implies same_letter(
                #[trigger] value[i],
                text[from + i],
            ) by {
                assert(same_letter(value[i], tail[0int + i]));
            }
        }
        if stands_at(text, from, value) {
            lemma_like_anything(tail.skip(value.len() as int));
            assert forall|i: int| 0 <= i < value.len() implies same_letter(
                #[trigger] value[i],
                tail[0int + i],
            ) by {
                assert(same_letter(value[i], text[from + i]));
            }
        }
    }
    if like(wrapped(value), text) {
        let from = choose|from: int| 0 <= from <= text.len() && like(rest, #[trigger] text.skip(from));
        assert(stands_at(text, from, value));
    }
    if contains_folded(text, value) {
        let start = choose|start: int| stands_at(text, start, value);
        assert(like(rest, text.skip(start)));
    }
}

/// A pattern matches every text that begins with the pattern's own
/// characters and goes on with a text that the rest of the pattern matches.
pub proof fn lemma_like_itself(head: Seq<char>, rest: Seq<char>, text: Seq<char>)
    requires
        head.len() <= text.len(),
        text.take(head.len() as int) == head,
        like(rest, text.skip(head.len() as int)),
    ensures
        like(head + rest, text),
    decreases head.len(),
{
    if head.len() == 0 {
        assert(head + rest =~= rest);
        assert(text.skip(0) =~= text);
    } else {
        let pattern = head + rest;
        let tail = text.drop_first();
        assert(pattern[0] == head[0]);
        assert(text[0] == text.take(head.len() as int)[0]);
        assert(pattern.drop_first() =~= head.drop_first() + rest);
        assert(tail.take(head.len() - 1) =~= head.drop_first()) by {
            assert forall|i: int| 0 <= i < head.len() - 1 implies tail.take(head.len() - 1)[i]
                == head.drop_first()[i] by {
                assert(text.take(head.len() as int)[i + 1] == head[i + 1]);
            }
        }
        assert(tail.skip(head.len() - 1) =~= text.skip(head.len() as int));
        lemma_like_itself(head.drop_first(), rest, tail);
        if head[0] == '%' {
            lemma_like_after_percent(pattern.drop_first(), text);
            assert(text.skip(1) =~= tail);
            assert(seq!['%'] + pattern.drop_first() =~= pattern);
        }
    }
}

/// A value wrapped in `%` matches every text that contains the value as it
/// is, whatever the value holds.
pub proof fn lemma_like_contained(value: Seq<char>, text: Seq<char>)
    requires
        crate::text::contains_text(text, value),
    ensures
        like(wrapped(value), text),
{
    let start = choose|start: int|
        0 <= start && start + value.len() <= text.len() && #[trigger] text.subrange(
            start,
            start + value.len(),
        ) == value;
    let rest = value + seq!['%'];
    let tail = text.skip(start);
    assert(wrapped(value) =~= seq!['%'] + rest);
    assert(tail.take(value.len() as int) =~= text.subrange(start, start + value.len()));
    lemma_like_anything(tail.skip(value.len() as int));
    lemma_like_itself(value, seq!['%'], tail);
    lemma_like_after_percent(rest, text);
}

} // verus!
