//! Cutting a text into overlapping pieces.

use vstd::arithmetic::div_mod::lemma_fundamental_div_mod;
use vstd::arithmetic::mul::{
    lemma_mul_inequality, lemma_mul_is_commutative, lemma_mul_is_distributive_add_other_way,
};
use vstd::prelude::*;

use crate::text::{chars_of, text_between, views};

verus! {

/// The number of pieces of a text of that length, where each piece begins `step`
/// characters behind the one before it.
pub open spec fn piece_count(len: nat, size: nat, step: nat) -> nat {
    if len <= size {
        1
    } else {
        (1 + (len - size + step - 1) / step as int) as nat
    }
}

/// The piece of a text that begins at a place.
pub open spec fn piece(text: Seq<char>, start: int, size: nat) -> Seq<char> {
    text.subrange(
        start,
        if start + size <= text.len() {
            start + size
        } else {
            text.len() as int
        },
    )
}

/// The pieces of a text: each has `size` characters, the last one what is left, and each
/// but the first begins with the last `overlap` characters of the one before it.
pub open spec fn pieces(text: Seq<char>, size: nat, overlap: nat) -> Seq<Seq<char>> {
    let step = (size - overlap) as nat;
    Seq::new(piece_count(text.len(), size, step), |k: int| piece(text, k * step, size))
}

proof fn lemma_piece_count(len: nat, size: nat, step: nat)
    requires
        step > 0,
        len > size,
    ensures
        piece_count(len, size, step) >= 2,
        (piece_count(len, size, step) - 2) * step + size < len,
        (piece_count(len, size, step) - 1) * step + size >= len,
{
    let d = len - size;
    let n = d + step - 1;
    let q = n / step as int;
    lemma_fundamental_div_mod(n, step as int);
    lemma_mul_is_commutative(step as int, q);
    assert(q >= 1) by {
        if q <= 0 {
            lemma_mul_inequality(q, 0, step as int);
        }
    }
    lemma_mul_is_distributive_add_other_way(step as int, q - 1, 1);
}

/// A piece ends where the text ends just if it is the last one.
proof fn lemma_last_piece(len: nat, size: nat, step: nat, k: int)
    requires
        0 < step <= size < len,
        0 <= k < piece_count(len, size, step),
    ensures
        (k * step + size >= len) == (k == piece_count(len, size, step) - 1),
        k * step < len,
{
    let n = piece_count(len, size, step);
    lemma_piece_count(len, size, step);
    if k < n - 1 {
        lemma_mul_inequality(k, n - 2, step as int);
    } else {
        lemma_mul_is_distributive_add_other_way(step as int, n - 2, 1);
    }
}

/// Split text into overlapping chunks.
pub fn chunk_text(text: &str, chunk_size: usize, overlap: usize) -> (r: Vec<String>)
    requires
        text@.len() <= chunk_size || overlap < chunk_size,
    ensures
        views(r@) == pieces(text@, chunk_size as nat, overlap as nat),
{
    let chars = chars_of(text);
    let len: usize = chars.len();
    let mut chunks: Vec<String> = Vec::new();
    let ghost all = pieces(text@, chunk_size as nat, overlap as nat);
    if len <= chunk_size {
        chunks.push(text.to_owned());
        proof {
            assert(0 * (chunk_size - overlap) as nat == 0);
            assert(text@.subrange(0, text@.len() as int) =~= text@);
            assert(views(chunks@) =~= all);
        }
        return chunks;
    }
    let step: usize = chunk_size - overlap;
    let mut start: usize = 0;
    let ghost mut k: int = 0;
    let ghost n = piece_count(len as nat, chunk_size as nat, step as nat);
    proof {
        lemma_piece_count(len as nat, chunk_size as nat, step as nat);
        assert(0 * step == 0);
        assert(views(chunks@) =~= all.take(0));
    }
    while start < len
        invariant_except_break
            0 <= k < n,
            start < len,
            start == k * step,
            views(chunks@) == all.take(k),
        invariant
            chars@ == text@,
            len == text@.len(),
            overlap < chunk_size < len,
            step == chunk_size - overlap,
            n == piece_count(len as nat, chunk_size as nat, step as nat),
            all == pieces(text@, chunk_size as nat, overlap as nat),
            all.len() == n,
        ensures
            views(chunks@) == all,
        decreases len - start,
    {
        let end: usize = if chunk_size >= len - start {
            len
        } else {
            start + chunk_size
        };
        let ghost done = views(chunks@);
        let chunk = text_between(&chars, start, end);
        chunks.push(chunk);
        proof {
            assert(views(chunks@) =~= done.push(chunk@));
            lemma_last_piece(len as nat, chunk_size as nat, step as nat, k);
            assert(all[k] == piece(text@, k * step, chunk_size as nat));
            assert(views(chunks@) =~= all.take(k + 1));
        }
        if end >= len {
            assert(all.take(k + 1) =~= all);
            break;
        }
        start += step;
        proof {
            lemma_mul_is_distributive_add_other_way(step as int, k, 1);
            k = k + 1;
            lemma_last_piece(len as nat, chunk_size as nat, step as nat, k);
        }
    }
    chunks
}

// ---------------------------------------------------------------------------
// Laws
// ---------------------------------------------------------------------------

/// What pieces say once the characters that each repeats are left out.
pub open spec fn rejoined(parts: Seq<Seq<char>>, overlap: nat) -> Seq<char>
    decreases parts.len(),
{
    if parts.len() == 0 {
        Seq::empty()
    } else if parts.len() == 1 {
        parts[0]
    } else {
        rejoined(parts.drop_last(), overlap) + parts.last().skip(overlap as int)
    }
}

/// No piece is longer than asked for, none but the last is shorter, and a piece is empty
/// only where the text is.
pub proof fn law_piece_sizes(text: Seq<char>, size: nat, overlap: nat, k: int)
    requires
        text.len() <= size || overlap < size,
        0 <= k < pieces(text, size, overlap).len(),
    ensures
        pieces(text, size, overlap)[k].len() <= size,
        k < pieces(text, size, overlap).len() - 1 ==> pieces(text, size, overlap)[k].len() == size,
        text.len() > 0 ==> pieces(text, size, overlap)[k].len() > 0,
{
    let step = (size - overlap) as nat;
    if text.len() > size {
        lemma_last_piece(text.len(), size, step, k);
        lemma_mul_inequality(0, k, step as int);
    } else {
        assert(k * step == 0) by {
            assert(k == 0);
        }
    }
}

/// Each piece begins with the last characters of the one before it, as many as asked for.
pub proof fn law_pieces_overlap(text: Seq<char>, size: nat, overlap: nat, k: int)
    requires
        text.len() <= size || overlap < size,
        0 <= k < pieces(text, size, overlap).len() - 1,
    ensures
        pieces(text, size, overlap)[k].skip(size - overlap) == pieces(
            text,
            size,
            overlap,
        )[k + 1].take(overlap as int),
{
    let step = (size - overlap) as nat;
    let all = pieces(text, size, overlap);
    lemma_last_piece(text.len(), size, step, k);
    lemma_last_piece(text.len(), size, step, k + 1);
    lemma_mul_is_distributive_add_other_way(step as int, k, 1);
    lemma_mul_inequality(0, k, step as int);
    assert(all[k].skip(step as int) =~= text.subrange(k * step + step, k * step + size));
    assert(all[k + 1].take(overlap as int) =~= text.subrange(
        (k + 1) * step,
        (k + 1) * step + overlap,
    ));
}

proof fn lemma_rejoined(text: Seq<char>, size: nat, overlap: nat, n: int)
    requires
        overlap < size,
        1 <= n <= pieces(text, size, overlap).len(),
    ensures
        rejoined(pieces(text, size, overlap).take(n), overlap) == piece(
            text,
            0,
            ((n - 1) * (size - overlap) + size) as nat,
        ),
    decreases n,
{
    let step = (size - overlap) as nat;
    let all = pieces(text, size, overlap);
    let parts = all.take(n);
    assert(0 * step == 0);
    if n == 1 {
        assert(parts[0] == all[0]);
        assert(0 * (size - overlap) == 0);
        assert(rejoined(parts, overlap) =~= piece(text, 0, size));
    } else {
        lemma_rejoined(text, size, overlap, n - 1);
        assert(parts.drop_last() =~= all.take(n - 1));
        assert(parts.last() == all[n - 1]);
        lemma_last_piece(text.len(), size, step, n - 2);
        lemma_last_piece(text.len(), size, step, n - 1);
        lemma_mul_is_distributive_add_other_way(step as int, n - 2, 1);
        lemma_mul_inequality(0, n - 2, step as int);
        let done = (n - 2) * step + size;
        assert(rejoined(all.take(n - 1), overlap) =~= text.subrange(0, done));
        let last = all[n - 1];
        assert(last == piece(text, (n - 1) * step, size));
        let end = if (n - 1) * step + size <= text.len() {
            (n - 1) * step + size
        } else {
            text.len() as int
        };
        assert(last.skip(overlap as int) =~= text.subrange(done, end));
        assert(rejoined(parts, overlap) =~= text.subrange(0, end));
        assert(piece(text, 0, ((n - 1) * step + size) as nat) =~= text.subrange(0, end));
    }
}

/// Nothing is lost: the pieces, without the characters that they repeat, make the text.
pub proof fn law_pieces_rejoin(text: Seq<char>, size: nat, overlap: nat)
    requires
        text.len() <= size || overlap < size,
    ensures
        rejoined(pieces(text, size, overlap), overlap) == text,
{
    let step = (size - overlap) as nat;
    let all = pieces(text, size, overlap);
    let n = all.len() as int;
    if text.len() > size {
        lemma_rejoined(text, size, overlap, n);
        assert(all.take(n) =~= all);
        lemma_piece_count(text.len(), size, step);
        assert(piece(text, 0, ((n - 1) * (size - overlap) + size) as nat) =~= text);
    } else {
        assert(0 * step == 0);
        assert(all[0] =~= text);
    }
}

} // verus!
