//! Reading back the keyword lists that `keywords_json` writes: a decoder for
//! compact JSON arrays of strings, and the law that decoding the written text
//! gives back exactly the trimmed, non-empty keywords, in order.

use vstd::prelude::*;

use crate::meta::{
    comma_pieces, escape, escape_char, join_commas, keyword_items, keywords_json_text, lemma_piece_end_bounds,
    piece_end, quoted, trim, trim_end, trim_start,
};

verus! {

/// The character that a JSON escape `\c` stands for, for each escape JSON
/// defines except `\u` (`None` for any other character after the backslash).
pub open spec fn json_escape_value(c: char) -> Option<char> {
    if c == '"' {
        Some('"')
    } else if c == '\\' {
        Some('\\')
    } else if c == '/' {
        Some('/')
    } else if c == 'b' {
        Some('\x08')
    } else if c == 'f' {
        Some('\x0c')
    } else if c == 'n' {
        Some('\n')
    } else if c == 'r' {
        Some('\r')
    } else if c == 't' {
        Some('\t')
    } else {
        None
    }
}

/// The rest of a JSON string after its opening quote, decoded: the characters
/// up to the closing quote, unescaped, and what follows that quote. `None`
/// when the string is not closed, holds a raw control character (which JSON
/// forbids), or uses a `\u` escape (which this reader does not take).
pub open spec fn json_string_rest(s: Seq<char>) -> Option<(Seq<char>, Seq<char>)>
    decreases s.len(),
{
    if s.len() == 0 {
        None
    } else if s[0] == '"' {
        Some((Seq::empty(), s.drop_first()))
    } else if s[0] == '\\' {
        if s.len() < 2 {
            None
        } else {
            match json_escape_value(s[1]) {
                None => None,
                Some(c) => match json_string_rest(s.subrange(2, s.len() as int)) {
                    None => None,
                    Some(p) => Some((seq![c] + p.0, p.1)),
                },
            }
        }
    } else if (s[0] as u32) < 0x20 {
        None
    } else {
        match json_string_rest(s.drop_first()) {
            None => None,
            Some(p) => Some((seq![s[0]] + p.0, p.1)),
        }
    }
}

/// What follows a decoded string is shorter than the text it was read from.
pub proof fn lemma_json_string_rest_shorter(s: Seq<char>)
    ensures
        json_string_rest(s) matches Some(p) ==> p.1.len() < s.len(),
    decreases s.len(),
{
    if s.len() > 0 && s[0] != '"' {
        if s[0] == '\\' {
            if s.len() >= 2 {
                lemma_json_string_rest_shorter(s.subrange(2, s.len() as int));
            }
        } else {
            lemma_json_string_rest_shorter(s.drop_first());
        }
    }
}

/// The strings of a JSON array after its `[`, up to and including its `]`:
/// strings separated by commas, with no whitespace between the tokens.
pub open spec fn json_string_elements(s: Seq<char>) -> Option<Seq<Seq<char>>>
    decreases s.len(),
{
    if s.len() == 0 || s[0] != '"' {
        None
    } else {
        match json_string_rest(s.drop_first()) {
            None => None,
            Some(p) => if p.1 == seq![']'] {
                Some(seq![p.0])
            } else if p.1.len() > 0 && p.1[0] == ',' {
                proof {
                    lemma_json_string_rest_shorter(s.drop_first());
                }
                match json_string_elements(p.1.drop_first()) {
                    None => None,
                    Some(more) => Some(seq![p.0] + more),
                }
            } else {
                None
            },
        }
    }
}

/// The strings of a compact JSON array of strings (no whitespace between the
/// tokens), or `None` when the text is not one.
pub open spec fn json_string_array(s: Seq<char>) -> Option<Seq<Seq<char>>> {
    if s.len() > 0 && s[0] == '[' {
        if s.drop_first() == seq![']'] {
            Some(Seq::empty())
        } else {
            json_string_elements(s.drop_first())
        }
    } else {
        None
    }
}

/// The keywords of a list of pieces: each piece trimmed, the empty ones dropped.
pub open spec fn kept_keywords(pieces: Seq<Seq<char>>) -> Seq<Seq<char>>
    decreases pieces.len(),
{
    if pieces.len() == 0 {
        Seq::empty()
    } else {
        let k = trim(pieces[0]);
        (if k.len() > 0 {
            seq![k]
        } else {
            Seq::empty()
        }) + kept_keywords(pieces.drop_first())
    }
}

/// No character of `s` is a control character (below U+0020).
pub open spec fn no_controls(s: Seq<char>) -> bool {
    forall|i: int| 0 <= i < s.len() ==> (#[trigger] s[i] as u32) >= 0x20
}

/// Escaping distributes over concatenation.
proof fn lemma_escape_append(a: Seq<char>, b: Seq<char>)
    ensures
        escape(a + b) == escape(a) + escape(b),
    decreases b.len(),
{
    if b.len() == 0 {
        assert(a + b =~= a);
        assert(escape(a) + escape(b) =~= escape(a));
    } else {
        assert((a + b).drop_last() =~= a + b.drop_last());
        assert((a + b).last() == b.last());
        lemma_escape_append(a, b.drop_last());
        assert(escape(a) + escape(b) =~= escape(a) + escape(b.drop_last()) + escape_char(b.last()));
    }
}

/// A string's escaped form, closed by a quote, reads back as the string.
proof fn lemma_read_escaped(k: Seq<char>, rest: Seq<char>)
    requires
        no_controls(k),
    ensures
        json_string_rest(escape(k) + seq!['"'] + rest) == Some((k, rest)),
    decreases k.len(),
{
    let s = escape(k) + seq!['"'] + rest;
    if k.len() == 0 {
        assert(escape(k) =~= Seq::<char>::empty());
        assert(s.drop_first() =~= rest);
    } else {
        let c = k[0];
        let tail = k.drop_first();
        assert(k =~= seq![c] + tail);
        lemma_escape_append(seq![c], tail);
        assert(escape(seq![c]) == escape(Seq::<char>::empty()) + escape_char(c)) by {
            assert(seq![c].drop_last() =~= Seq::<char>::empty());
        }
        assert(escape(Seq::<char>::empty()) =~= Seq::<char>::empty());
        assert(no_controls(tail)) by {
            assert forall|i: int| 0 <= i < tail.len() implies (#[trigger] tail[i] as u32) >= 0x20 by {
                assert(tail[i] == k[i + 1]);
            }
        }
        lemma_read_escaped(tail, rest);
        let after = escape(tail) + seq!['"'] + rest;
        if c == '\\' || c == '"' {
            assert(s =~= seq!['\\', c] + after);
            assert(s.subrange(2, s.len() as int) =~= after);
        } else {
            assert((k[0] as u32) >= 0x20);
            assert(s =~= seq![c] + after);
            assert(s.drop_first() =~= after);
        }
        assert(seq![c] + tail =~= k);
    }
}

/// Each written item is a kept keyword in quotes.
proof fn lemma_items_are_quoted(pieces: Seq<Seq<char>>)
    ensures
        keyword_items(pieces) == kept_keywords(pieces).map_values(|k: Seq<char>| quoted(k)),
    decreases pieces.len(),
{
    if pieces.len() > 0 {
        lemma_items_are_quoted(pieces.drop_first());
        let k = trim(pieces[0]);
        let here = if k.len() > 0 {
            seq![k]
        } else {
            Seq::<Seq<char>>::empty()
        };
        let rest = kept_keywords(pieces.drop_first());
        assert((here + rest).map_values(|k: Seq<char>| quoted(k)) =~= here.map_values(|k: Seq<char>| quoted(k))
            + rest.map_values(|k: Seq<char>| quoted(k)));
        if k.len() > 0 {
            assert(here.map_values(|k: Seq<char>| quoted(k)) =~= seq![quoted(k)]);
        } else {
            assert(here.map_values(|k: Seq<char>| quoted(k)) =~= Seq::<Seq<char>>::empty());
        }
    }
}

/// A part of a string without control characters has none either.
proof fn lemma_subrange_no_controls(s: Seq<char>, i: int, j: int)
    requires
        no_controls(s),
        0 <= i <= j <= s.len(),
    ensures
        no_controls(s.subrange(i, j)),
{
    assert forall|x: int| 0 <= x < j - i implies (#[trigger] s.subrange(i, j)[x] as u32) >= 0x20 by {
        assert(s.subrange(i, j)[x] == s[i + x]);
    }
}

/// Trimming keeps a string free of control characters.
proof fn lemma_trim_no_controls(s: Seq<char>)
    requires
        no_controls(s),
    ensures
        no_controls(trim_start(s)),
        no_controls(trim(s)),
    decreases s.len(),
{
    if s.len() > 0 && crate::text::unicode_white_space(s[0]) {
        lemma_subrange_no_controls(s, 1, s.len() as int);
        assert(s.drop_first() =~= s.subrange(1, s.len() as int));
        lemma_trim_no_controls(s.drop_first());
    }
    lemma_trim_end_no_controls(trim_start(s));
}

proof fn lemma_trim_end_no_controls(s: Seq<char>)
    requires
        no_controls(s),
    ensures
        no_controls(trim_end(s)),
    decreases s.len(),
{
    if s.len() > 0 && crate::text::unicode_white_space(s.last()) {
        lemma_subrange_no_controls(s, 0, s.len() - 1);
        assert(s.drop_last() =~= s.subrange(0, s.len() - 1));
        lemma_trim_end_no_controls(s.drop_last());
    }
}

/// The pieces between commas of a string without control characters have none.
proof fn lemma_pieces_no_controls(s: Seq<char>)
    requires
        no_controls(s),
    ensures
        forall|i: int| 0 <= i < comma_pieces(s).len() ==> no_controls(#[trigger] comma_pieces(s)[i]),
    decreases s.len(),
{
    let e = piece_end(s, 0);
    lemma_piece_end_bounds(s, 0);
    if e < s.len() {
        lemma_subrange_no_controls(s, 0, e);
        lemma_subrange_no_controls(s, e + 1, s.len() as int);
        lemma_pieces_no_controls(s.subrange(e + 1, s.len() as int));
        let ps = comma_pieces(s);
        let tail = comma_pieces(s.subrange(e + 1, s.len() as int));
        assert(ps == seq![s.subrange(0, e)] + tail);
        assert forall|i: int| 0 <= i < ps.len() implies no_controls(#[trigger] ps[i]) by {
            if i > 0 {
                assert(ps[i] == tail[i - 1]);
            }
        }
    }
}

/// The kept keywords of pieces without control characters have none.
proof fn lemma_kept_no_controls(pieces: Seq<Seq<char>>)
    requires
        forall|i: int| 0 <= i < pieces.len() ==> no_controls(#[trigger] pieces[i]),
    ensures
        forall|i: int| 0 <= i < kept_keywords(pieces).len() ==> no_controls(#[trigger] kept_keywords(pieces)[i]),
    decreases pieces.len(),
{
    if pieces.len() > 0 {
        let k = trim(pieces[0]);
        assert(no_controls(pieces[0]));
        lemma_trim_no_controls(pieces[0]);
        assert forall|i: int| 0 <= i < pieces.drop_first().len() implies no_controls(#[trigger] pieces.drop_first()[i]) by {
            assert(pieces.drop_first()[i] == pieces[i + 1]);
        }
        lemma_kept_no_controls(pieces.drop_first());
        let here = if k.len() > 0 {
            seq![k]
        } else {
            Seq::<Seq<char>>::empty()
        };
        let rest = kept_keywords(pieces.drop_first());
        let all = kept_keywords(pieces);
        assert(all == here + rest);
        assert forall|i: int| 0 <= i < all.len() implies no_controls(#[trigger] all[i]) by {
            if i < here.len() {
                assert(all[i] == k);
            } else {
                assert(all[i] == rest[i - here.len()]);
            }
        }
    }
}

/// Quoted strings joined by commas and closed by `]` read back as the strings.
proof fn lemma_read_elements(items: Seq<Seq<char>>)
    requires
        items.len() > 0,
        forall|i: int| 0 <= i < items.len() ==> no_controls(#[trigger] items[i]),
    ensures
        json_string_elements(join_commas(items.map_values(|k: Seq<char>| quoted(k))) + seq![']']) == Some(items),
    decreases items.len(),
{
    let qs = items.map_values(|k: Seq<char>| quoted(k));
    let x = items[0];
    assert(no_controls(x));
    let s = join_commas(qs) + seq![']'];
    let tail = if items.len() == 1 {
        seq![']']
    } else {
        seq![','] + join_commas(qs.drop_first()) + seq![']']
    };
    if items.len() == 1 {
        assert(join_commas(qs) == qs[0]);
    } else {
        assert(join_commas(qs) == qs[0] + seq![','] + join_commas(qs.drop_first()));
    }
    assert(qs[0] == quoted(x));
    assert(s =~= seq!['"'] + (escape(x) + seq!['"'] + tail));
    assert(s.drop_first() =~= escape(x) + seq!['"'] + tail);
    lemma_read_escaped(x, tail);
    if items.len() == 1 {
        assert(items =~= seq![x]);
    } else {
        let more = items.drop_first();
        assert(qs.drop_first() =~= more.map_values(|k: Seq<char>| quoted(k)));
        assert forall|i: int| 0 <= i < more.len() implies no_controls(#[trigger] more[i]) by {
            assert(more[i] == items[i + 1]);
        }
        lemma_read_elements(more);
        assert(tail.drop_first() =~= join_commas(qs.drop_first()) + seq![']']);
        assert(tail != seq![']']) by {
            assert(tail[0] == ',');
        }
        assert(seq![x] + more =~= items);
    }
}

/// Law: for a keyword list without control characters, the text that
/// `keywords_json` writes is a JSON array of strings, and reading it back
/// gives exactly the pieces between commas, trimmed, with the empty ones
/// dropped, in order — quotes and backslashes included.
pub proof fn lemma_keywords_json_reads_back(keywords: Seq<char>)
    requires
        no_controls(keywords),
    ensures
        json_string_array(keywords_json_text(keywords)) == Some(kept_keywords(comma_pieces(keywords))),
{
    let pieces = comma_pieces(keywords);
    let items = kept_keywords(pieces);
    lemma_items_are_quoted(pieces);
    lemma_pieces_no_controls(keywords);
    lemma_kept_no_controls(pieces);
    let qs = items.map_values(|k: Seq<char>| quoted(k));
    let text = keywords_json_text(keywords);
    assert(text == seq!['['] + join_commas(qs) + seq![']']);
    assert(text.drop_first() =~= join_commas(qs) + seq![']']);
    if items.len() == 0 {
        assert(qs.len() == 0);
        assert(join_commas(qs) == Seq::<char>::empty());
        assert(text.drop_first() =~= seq![']']);
    } else {
        lemma_read_elements(items);
        assert(join_commas(qs)[0] == '"') by {
            if items.len() == 1 {
                assert(join_commas(qs) == qs[0]);
            } else {
                assert(join_commas(qs) == qs[0] + seq![','] + join_commas(qs.drop_first()));
            }
            assert(qs[0] == quoted(items[0]));
        }
        assert(text.drop_first() != seq![']']) by {
            assert(text.drop_first()[0] == '"');
        }
    }
}

} // verus!
