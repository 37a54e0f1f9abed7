//! Discovery metadata attached to the worker's functions: keyword lists as JSON
//! arrays, the standard per-object tags, and self-contained example inputs.

use vstd::prelude::*;

use crate::text::{concat3, is_whitespace, pairs_view, push_char, replace_all, replace_str, unicode_white_space};

verus! {

/// Index of the first comma at or after `i` in `s`, or `s.len()` when there is none.
pub open spec fn piece_end(s: Seq<char>, i: int) -> int
    decreases s.len() - i,
{
    if i < 0 || i >= s.len() || s[i] == ',' {
        i
    } else {
        piece_end(s, i + 1)
    }
}

/// The end of a piece lies between its start and the end of the string, and
/// is a comma unless it is the end of the string.
pub proof fn lemma_piece_end_bounds(s: Seq<char>, i: int)
    requires
        0 <= i <= s.len(),
    ensures
        i <= piece_end(s, i) <= s.len(),
        piece_end(s, i) < s.len() ==> s[piece_end(s, i)] == ',',
    decreases s.len() - i,
{
    if i < s.len() && s[i] != ',' {
        lemma_piece_end_bounds(s, i + 1);
    }
}

/// The pieces of `s` between commas, as `str::split(',')` yields them: `n`
/// commas give `n + 1` pieces, empty ones included.
pub open spec fn comma_pieces(s: Seq<char>) -> Seq<Seq<char>>
    decreases s.len(),
{
    let e = piece_end(s, 0);
    if e >= s.len() {
        seq![s]
    } else {
        proof {
            lemma_piece_end_bounds(s, 0);
        }
        seq![s.subrange(0, e)] + comma_pieces(s.subrange(e + 1, s.len() as int))
    }
}

/// `s` without its leading whitespace.
pub open spec fn trim_start(s: Seq<char>) -> Seq<char>
    decreases s.len(),
{
    if s.len() > 0 && unicode_white_space(s[0]) {
        trim_start(s.drop_first())
    } else {
        s
    }
}

/// `s` without its trailing whitespace.
pub open spec fn trim_end(s: Seq<char>) -> Seq<char>
    decreases s.len(),
{
    if s.len() > 0 && unicode_white_space(s.last()) {
        trim_end(s.drop_last())
    } else {
        s
    }
}

/// `s` without leading and trailing whitespace, as `str::trim` gives it.
pub open spec fn trim(s: Seq<char>) -> Seq<char> {
    trim_end(trim_start(s))
}

/// One character escaped for a JSON string: backslash and double quote get a
/// backslash in front.
pub open spec fn escape_char(c: char) -> Seq<char> {
    if c == '\\' {
        seq!['\\', '\\']
    } else if c == '"' {
        seq!['\\', '"']
    } else {
        seq![c]
    }
}

/// `s` escaped for a JSON string, character by character.
pub open spec fn escape(s: Seq<char>) -> Seq<char>
    decreases s.len(),
{
    if s.len() == 0 {
        Seq::empty()
    } else {
        escape(s.drop_last()) + escape_char(s.last())
    }
}

/// A keyword as a JSON string.
pub open spec fn quoted(k: Seq<char>) -> Seq<char> {
    seq!['"'] + escape(k) + seq!['"']
}

/// The trimmed, non-empty pieces, each as a JSON string.
pub open spec fn keyword_items(pieces: Seq<Seq<char>>) -> Seq<Seq<char>>
    decreases pieces.len(),
{
    if pieces.len() == 0 {
        Seq::empty()
    } else {
        let k = trim(pieces[0]);
        let here = if k.len() > 0 {
            seq![quoted(k)]
        } else {
            Seq::empty()
        };
        here + keyword_items(pieces.drop_first())
    }
}

/// Items joined with commas.
pub open spec fn join_commas(items: Seq<Seq<char>>) -> Seq<char>
    decreases items.len(),
{
    if items.len() == 0 {
        Seq::empty()
    } else if items.len() == 1 {
        items[0]
    } else {
        items[0] + seq![','] + join_commas(items.drop_first())
    }
}

/// A comma-separated keyword list as a JSON array of strings: each piece
/// between commas is trimmed, empty pieces are dropped, and the rest become
/// JSON strings, e.g. `"a, b"` → `["a","b"]`.
pub open spec fn keywords_json_text(keywords: Seq<char>) -> Seq<char> {
    seq!['['] + join_commas(keyword_items(comma_pieces(keywords))) + seq![']']
}


proof fn lemma_piece_end_at(r: Seq<char>, i: int, k: int)
    requires
        0 <= i <= k <= r.len(),
        forall|j: int| i <= j < k ==> r[j] != ',',
        k == r.len() || r[k] == ',',
    ensures
        piece_end(r, i) == k,
    decreases k - i,
{
    if i < k {
        lemma_piece_end_at(r, i + 1, k);
    }
}

proof fn lemma_join_cons(x: Seq<char>, ys: Seq<Seq<char>>)
    ensures
        join_commas(seq![x] + ys) == x + (if ys.len() > 0 {
            seq![','] + join_commas(ys)
        } else {
            Seq::<char>::empty()
        }),
{
    let xs = seq![x] + ys;
    assert(xs[0] == x);
    assert(xs.drop_first() =~= ys);
    if ys.len() == 0 {
        assert(x + Seq::<char>::empty() =~= x);
    } else {
        assert(x + seq![','] + join_commas(ys) =~= x + (seq![','] + join_commas(ys)));
    }
}

proof fn lemma_items_cons(p: Seq<char>, ps: Seq<Seq<char>>)
    ensures
        keyword_items(seq![p] + ps) == (if trim(p).len() > 0 {
            seq![quoted(trim(p))]
        } else {
            Seq::<Seq<char>>::empty()
        }) + keyword_items(ps),
{
    let xs = seq![p] + ps;
    assert(xs[0] == p);
    assert(xs.drop_first() =~= ps);
}

/// What is still to be written once some pieces are done: the remaining items
/// (after a comma when an item was already written) and the closing bracket.
spec fn json_tail(emitted: bool, items: Seq<Seq<char>>) -> Seq<char> {
    (if items.len() > 0 {
        (if emitted {
            seq![',']
        } else {
            Seq::<char>::empty()
        }) + join_commas(items)
    } else {
        Seq::<char>::empty()
    }) + seq![']']
}

proof fn lemma_tail_emit(emitted: bool, q: Seq<char>, items: Seq<Seq<char>>)
    ensures
        json_tail(emitted, seq![q] + items) == (if emitted {
            seq![',']
        } else {
            Seq::<char>::empty()
        }) + q + json_tail(true, items),
{
    lemma_join_cons(q, items);
    let sep = if emitted {
        seq![',']
    } else {
        Seq::<char>::empty()
    };
    assert(json_tail(emitted, seq![q] + items) =~= sep + q + json_tail(true, items));
}

/// Serialize a comma-separated keyword list as a JSON array of strings, e.g.
/// `"a, b"` → `["a","b"]`.
pub fn keywords_json(keywords: &str) -> (json: String)
    ensures
        json@ == keywords_json_text(keywords@),
{
    let ghost s = keywords@;
    let ghost target = keywords_json_text(s);
    let n = keywords.unicode_len();
    let mut out = String::new();
    push_char(&mut out, '[');
    let mut emitted = false;
    let mut start: usize = 0;
    let mut done = false;
    proof {
        assert(s.subrange(0, n as int) =~= s);
        assert(out@ =~= seq!['[']);
        if keyword_items(comma_pieces(s)).len() == 0 {
            assert(join_commas(keyword_items(comma_pieces(s))) =~= Seq::<char>::empty());
        }
        assert(target =~= out@ + json_tail(false, keyword_items(comma_pieces(s))));
    }
    while !done
        invariant
            n == s.len(),
            s == keywords@,
            done ==> target == out@ + seq![']'],
            !done ==> start <= n && target == out@ + json_tail(
                emitted,
                keyword_items(comma_pieces(s.subrange(start as int, n as int))),
            ),
        decreases (if done {
            0
        } else {
            n + 1 - start
        }),
    {
        let ghost rest = s.subrange(start as int, n as int);
        let ghost out0 = out@;
        let ghost emitted0 = emitted;
        let mut end = start;
        while end < n && keywords.get_char(end) != ','
            invariant
                start <= end <= n,
                n == s.len(),
                s == keywords@,
                forall|j: int| start <= j < end ==> s[j] != ',',
            decreases n - end,
        {
            end = end + 1;
        }
        proof {
            assert forall|j: int| 0 <= j < end - start implies rest[j] != ',' by {
                assert(rest[j] == s[start + j]);
            }
            if end < n {
                assert(rest[end - start] == s[end as int]);
            }
            lemma_piece_end_at(rest, 0, end - start);
        }
        let mut lo = start;
        while lo < end && is_whitespace(keywords.get_char(lo))
            invariant
                start <= lo <= end <= n,
                n == s.len(),
                s == keywords@,
                trim_start(s.subrange(start as int, end as int)) == trim_start(
                    s.subrange(lo as int, end as int),
                ),
            decreases end - lo,
        {
            proof {
                assert(s.subrange(lo as int, end as int).drop_first() =~= s.subrange(
                    lo + 1,
                    end as int,
                ));
            }
            lo = lo + 1;
        }
        proof {
            if lo == end {
                assert(s.subrange(lo as int, end as int).len() == 0);
            }
        }
        let mut hi = end;
        while hi > lo && is_whitespace(keywords.get_char(hi - 1))
            invariant
                start <= lo <= hi <= end <= n,
                n == s.len(),
                s == keywords@,
                trim_end(s.subrange(lo as int, end as int)) == trim_end(
                    s.subrange(lo as int, hi as int),
                ),
            decreases hi - lo,
        {
            proof {
                assert(s.subrange(lo as int, hi as int).drop_last() =~= s.subrange(
                    lo as int,
                    hi - 1,
                ));
            }
            hi = hi - 1;
        }
        let ghost piece = s.subrange(start as int, end as int);
        proof {
            assert(trim_start(piece) == s.subrange(lo as int, end as int));
            if hi == lo {
                assert(s.subrange(lo as int, hi as int).len() == 0);
            }
            assert(trim(piece) == s.subrange(lo as int, hi as int));
        }
        if lo < hi {
            if emitted {
                push_char(&mut out, ',');
            }
            push_char(&mut out, '"');
            let ghost before = out@;
            let mut j = lo;
            proof {
                assert(s.subrange(lo as int, lo as int) =~= Seq::<char>::empty());
                assert(out@ =~= before + escape(s.subrange(lo as int, j as int)));
            }
            while j < hi
                invariant
                    lo <= j <= hi <= n,
                    n == s.len(),
                    s == keywords@,
                    out@ == before + escape(s.subrange(lo as int, j as int)),
                decreases hi - j,
            {
                let c = keywords.get_char(j);
                if c == '\\' {
                    push_char(&mut out, '\\');
                    push_char(&mut out, '\\');
                } else if c == '"' {
                    push_char(&mut out, '\\');
                    push_char(&mut out, '"');
                } else {
                    push_char(&mut out, c);
                }
                proof {
                    let t = s.subrange(lo as int, j + 1);
                    assert(t.drop_last() =~= s.subrange(lo as int, j as int));
                    assert(t.last() == c);
                    assert(out@ =~= before + escape(t));
                }
                j = j + 1;
            }
            push_char(&mut out, '"');
            emitted = true;
            proof {
                let sep = if emitted0 {
                    seq![',']
                } else {
                    Seq::<char>::empty()
                };
                assert(out@ =~= out0 + sep + quoted(trim(piece)));
            }
        }
        proof {
            let here = if trim(piece).len() > 0 {
                seq![quoted(trim(piece))]
            } else {
                Seq::<Seq<char>>::empty()
            };
            assert(rest.subrange(0, end - start) =~= piece);
            if end < n {
                let rest2 = s.subrange(end + 1, n as int);
                assert(rest.subrange(end - start + 1, rest.len() as int) =~= rest2);
                assert(comma_pieces(rest) == seq![piece] + comma_pieces(rest2));
                lemma_items_cons(piece, comma_pieces(rest2));
                if trim(piece).len() > 0 {
                    lemma_tail_emit(emitted0, quoted(trim(piece)), keyword_items(comma_pieces(rest2)));
                } else {
                    assert(here + keyword_items(comma_pieces(rest2)) =~= keyword_items(
                        comma_pieces(rest2),
                    ));
                }
            } else {
                assert(rest =~= piece);
                assert(comma_pieces(rest) == seq![piece]);
                lemma_items_cons(piece, Seq::empty());
                assert(keyword_items(Seq::<Seq<char>>::empty()) == Seq::<Seq<char>>::empty());
                assert(here + Seq::<Seq<char>>::empty() =~= here);
                if trim(piece).len() > 0 {
                    lemma_tail_emit(emitted0, quoted(trim(piece)), Seq::empty());
                    assert(json_tail(true, Seq::<Seq<char>>::empty()) == seq![']']);
                }
            }
        }
        if end >= n {
            done = true;
        } else {
            start = end + 1;
        }
    }
    push_char(&mut out, ']');
    out
}


/// The tags every function carries: title, narrative for agents, narrative
/// for human docs, keywords as a JSON array, and navigation category.
pub open spec fn object_tags_view(
    title: Seq<char>,
    description_llm: Seq<char>,
    description_md: Seq<char>,
    keywords: Seq<char>,
    category: Seq<char>,
) -> Seq<(Seq<char>, Seq<char>)> {
    seq![
        ("vgi.title"@, title),
        ("vgi.doc_llm"@, description_llm),
        ("vgi.doc_md"@, description_md),
        ("vgi.keywords"@, keywords_json_text(keywords)),
        ("vgi.category"@, category),
    ]
}

/// Build the standard per-object discovery/description tags.
///
/// `relative_path` identifies the implementing file (kept in the signature for
/// call-site documentation; the source link itself lives on the catalog object,
/// so it is not emitted here).
pub fn object_tags(
    title: &str,
    description_llm: &str,
    description_md: &str,
    keywords: &str,
    category: &str,
    _relative_path: &str,
) -> (tags: Vec<(String, String)>)
    ensures
        pairs_view(tags@) == object_tags_view(title@, description_llm@, description_md@, keywords@, category@),
{
    let mut tags: Vec<(String, String)> = Vec::new();
    tags.push((String::from_str("vgi.title"), String::from_str(title)));
    tags.push((String::from_str("vgi.doc_llm"), String::from_str(description_llm)));
    tags.push((String::from_str("vgi.doc_md"), String::from_str(description_md)));
    tags.push((String::from_str("vgi.keywords"), keywords_json(keywords)));
    tags.push((String::from_str("vgi.category"), String::from_str(category)));
    assert(pairs_view(tags@) =~= object_tags_view(title@, description_llm@, description_md@, keywords@, category@));
    tags
}

/// A tiny, self-contained, decodable 2×2 RGB PNG as a hex string. Examples build
/// an image BLOB inline with `from_hex(SAMPLE_PNG_HEX)` so every example query is
/// re-runnable as written.
pub const SAMPLE_PNG_HEX: &'static str = "89504e470d0a1a0a0000000d4948445200000002000000020802000000fdd49a73000000164944415478da6360608812608862601088121088020009be01a9f633974e0000000049454e44ae426082";

/// A second, visually distinct tiny 4×4 RGB PNG (hex), so a perceptual-hash
/// distance between the two samples is a genuine non-zero value.
pub const SAMPLE_PNG_HEX_B: &'static str = "89504e470d0a1a0a0000000d4948445200000004000000040802000000269309290000002e4944415478da1d864901003008c3f246045ad0819acac355c778e4c0c0e1efaba4aa22a627ba6332130bb4f2de03fd2e1413e2c4ad370000000049454e44ae426082";

/// Build `from_hex('<png>')` — an inline DuckDB BLOB expression that decodes to a
/// tiny valid PNG. Use inside example SQL where an image BLOB is required.
pub fn sample_png_expr() -> (expr: String)
    ensures
        expr@ == "from_hex('"@ + SAMPLE_PNG_HEX@ + "')"@,
{
    concat3("from_hex('", SAMPLE_PNG_HEX, "')")
}

/// The analyst-task suite, with `__HEX__` standing for the first sample image
/// and `__HEXB__` for the second.
pub const AGENT_TEST_TEMPLATE: &'static str = r#"[
  {"name": "image_format", "prompt": "Report the image format (for example 'png' or 'jpeg') of the image whose raw bytes are the hex string __HEX__.", "reference_sql": "SELECT (img.main.image_info(from_hex('__HEX__'))).format AS format", "ignore_column_names": true},
  {"name": "image_width", "prompt": "What is the pixel width of the image whose raw bytes are the hex string __HEX__?", "reference_sql": "SELECT (img.main.image_info(from_hex('__HEX__'))).width AS width", "ignore_column_names": true},
  {"name": "has_exif", "prompt": "Does the image whose raw bytes are the hex string __HEX__ carry any embedded EXIF metadata tags? Return a single boolean.", "reference_sql": "SELECT cardinality(img.main.exif(from_hex('__HEX__'))) > 0 AS has_exif", "ignore_column_names": true},
  {"name": "has_gps", "prompt": "Does the image whose raw bytes are the hex string __HEX__ contain GPS location metadata? Return a single boolean.", "reference_sql": "SELECT img.main.exif_gps(from_hex('__HEX__')) IS NOT NULL AS has_gps", "ignore_column_names": true},
  {"name": "perceptual_hash", "prompt": "Compute the 64-bit DCT perceptual hash (the phash function) of the image whose raw bytes are the hex string __HEX__.", "reference_sql": "SELECT img.main.phash(from_hex('__HEX__')) AS phash", "ignore_column_names": true},
  {"name": "difference_hash", "prompt": "Compute the 64-bit difference hash (the dhash function) of the image whose raw bytes are the hex string __HEX__.", "reference_sql": "SELECT img.main.dhash(from_hex('__HEX__')) AS dhash", "ignore_column_names": true},
  {"name": "average_hash", "prompt": "Compute the 64-bit average hash (the ahash function) of the image whose raw bytes are the hex string __HEX__.", "reference_sql": "SELECT img.main.ahash(from_hex('__HEX__')) AS ahash", "ignore_column_names": true},
  {"name": "images_are_different", "prompt": "You are given two images as hex byte strings. First image: __HEX__. Second image: __HEXB__. Compute the phash (perceptual hash) of each image separately, pass those two hash values into the phash_distance function to get the Hamming distance between them, and answer whether the two images are perceptually different (is that distance greater than zero). Return a single boolean.", "reference_sql": "SELECT img.main.phash_distance(img.main.phash(from_hex('__HEX__')), img.main.phash(from_hex('__HEXB__'))) > 0 AS different", "ignore_column_names": true},
  {"name": "thumbnail_is_jpeg", "prompt": "Generate a thumbnail of the image whose raw bytes are the hex string __HEX__ using the function's default settings, then confirm whether the resulting thumbnail is a JPEG image. Return a single boolean.", "reference_sql": "SELECT (img.main.image_info(img.main.thumbnail(from_hex('__HEX__')))).format = 'jpeg' AS is_jpeg", "ignore_column_names": true},
  {"name": "convert_to_bmp", "prompt": "Convert the image whose raw bytes are the hex string __HEX__ to BMP, then confirm whether the converted image is in BMP format. Return a single boolean.", "reference_sql": "SELECT (img.main.image_info(img.main.convert(from_hex('__HEX__'), 'bmp'))).format = 'bmp' AS is_bmp", "ignore_column_names": true},
  {"name": "worker_version_is_semver", "prompt": "Using the image worker's own version function, determine whether the running worker reports a semantic version of the form MAJOR.MINOR.PATCH (three dot-separated integers). Return a single boolean.", "reference_sql": "SELECT regexp_matches(img.main.image_version(), '^[0-9]+\\.[0-9]+\\.[0-9]+') AS is_semver", "ignore_column_names": true}
]"#;

/// Build the analyst-task suite as a JSON string: the template with every
/// `__HEXB__` replaced by the second sample image, and then every `__HEX__` by
/// the first.
pub fn agent_test_tasks_json() -> (json: String)
    ensures
        json@ == replace_all(
            replace_all(AGENT_TEST_TEMPLATE@, "__HEXB__"@, SAMPLE_PNG_HEX_B@),
            "__HEX__"@,
            SAMPLE_PNG_HEX@,
        ),
{
    proof {
        reveal_strlit("__HEXB__");
        reveal_strlit("__HEX__");
    }
    let with_b = replace_str(AGENT_TEST_TEMPLATE, "__HEXB__", SAMPLE_PNG_HEX_B);
    replace_str(with_b.as_str(), "__HEX__", SAMPLE_PNG_HEX)
}

} // verus!
