use vstd::prelude::*;

verus! {

/// A white-space character as `char::is_whitespace` defines it (the Unicode
/// `White_Space` property), which is the set `str::trim` removes: tab to
/// carriage return, space, next line, no-break space, ogham space mark, the
/// spaces U+2000 to U+200A, line and paragraph separators, narrow no-break
/// space, medium mathematical space and ideographic space.
pub open spec fn is_white_space(c: char) -> bool {
    ||| '\t' <= c && c <= '\r'
    ||| c == ' '
    ||| c == '\u{85}'
    ||| c == '\u{A0}'
    ||| c == '\u{1680}'
    ||| '\u{2000}' <= c && c <= '\u{200A}'
    ||| c == '\u{2028}'
    ||| c == '\u{2029}'
    ||| c == '\u{202F}'
    ||| c == '\u{205F}'
    ||| c == '\u{3000}'
}

/// Whether a line is blank: nothing is left once `str::trim` has removed
/// its white space.
pub fn is_blank_line(line: &str) -> (r: bool)
    ensures
        r == blank(line@),
{
    let n = line.unicode_len();
    let mut i: usize = 0;
    while i < n
        invariant
            n == line@.len(),
            i <= n,
            forall|j: int| 0 <= j < i ==> is_white_space(#[trigger] line@[j]),
        decreases n - i,
    {
        let c = line.get_char(i);
        let white = ('\t' <= c && c <= '\r') || c == ' ' || c == '\u{85}' || c == '\u{A0}'
            || c == '\u{1680}' || ('\u{2000}' <= c && c <= '\u{200A}') || c == '\u{2028}'
            || c == '\u{2029}' || c == '\u{202F}' || c == '\u{205F}' || c == '\u{3000}';
        if !white {
            return false;
        }
        i = i + 1;
    }
    true
}

/// What `serde_json` reads as an unsigned 64-bit integer under `key` of the
/// JSON object in `line` (`Value::get`, then `Value::as_u64`): `None` where
/// the line is not JSON, is not an object with that key, or the value is not
/// such an integer.
pub uninterp spec fn json_u64_field(line: Seq<char>, key: Seq<char>) -> Option<u64>;

/// As `json_u64_field`, for a string value (`Value::as_str`).
pub uninterp spec fn json_str_field(line: Seq<char>, key: Seq<char>) -> Option<Seq<char>>;

/// Parses `line` as a `serde_json::Value` and reads `key` as an unsigned
/// integer. The contract names the result; the JSON grammar is not stated.
#[verifier::external_body]
fn json_u64_at(line: &str, key: &str) -> (r: Option<u64>)
    ensures
        r == json_u64_field(line@, key@),
{
    match serde_json::from_str::<serde_json::Value>(line) {
        Ok(v) => match v.get(key) {
            Some(x) => x.as_u64(),
            None => None,
        },
        Err(_) => None,
    }
}

/// Parses `line` as a `serde_json::Value` and reads `key` as a string. The
/// contract names the result; the JSON grammar is not stated.
#[verifier::external_body]
fn json_str_at(line: &str, key: &str) -> (r: Option<String>)
    ensures
        r.deep_view() == json_str_field(line@, key@),
{
    match serde_json::from_str::<serde_json::Value>(line) {
        Ok(v) => match v.get(key) {
            Some(x) => x.as_str().map(|s| s.to_string()),
            None => None,
        },
        Err(_) => None,
    }
}

/// A line with nothing but white space.
pub open spec fn blank(line: Seq<char>) -> bool {
    forall|i: int| 0 <= i < line.len() ==> is_white_space(#[trigger] line[i])
}

/// A stored reading whose id is at most `max_id`.
pub open spec fn flushed_line(line: Seq<char>, max_id: u64) -> bool {
    json_u64_field(line, "id"@) matches Some(id) && id <= max_id
}

/// `a` comes before `b` in the order of `str`'s `<`: character by character,
/// a proper prefix first.
pub open spec fn text_less(a: Seq<char>, b: Seq<char>) -> bool
    decreases a.len(),
{
    if a.len() == 0 {
        b.len() > 0
    } else if b.len() == 0 {
        false
    } else if a[0] != b[0] {
        a[0] < b[0]
    } else {
        text_less(a.drop_first(), b.drop_first())
    }
}

/// The order of texts is strict and total: no text comes before itself,
/// of two different texts exactly one comes first, a proper prefix comes
/// before the longer text, and otherwise the first differing character
/// decides.
pub proof fn law_text_order(a: Seq<char>, b: Seq<char>)
    ensures
        !text_less(a, a),
        a != b ==> (text_less(a, b) != text_less(b, a)),
        a.len() < b.len() && b.subrange(0, a.len() as int) == a ==> text_less(a, b),
        forall|k: int| 0 <= k < a.len() && k < b.len() && a.subrange(0, k) == b.subrange(0, k) && a[k] != b[k]
            ==> (text_less(a, b) == (a[k] < b[k])),
    decreases a.len(),
{
    lemma_text_less_irreflexive(a);
    if a.len() > 0 && b.len() > 0 {
        law_text_order(a.drop_first(), b.drop_first());
        if a != b && a[0] == b[0] {
            assert(a.drop_first() != b.drop_first()) by {
                if a.drop_first() == b.drop_first() {
                    assert forall|i: int| 0 <= i < a.len() implies a[i] == b[i] by {
                        if i > 0 {
                            assert(a[i] == a.drop_first()[i - 1]);
                            assert(b[i] == b.drop_first()[i - 1]);
                        }
                    }
                    assert(a =~= b);
                }
            }
        }
        if a.len() < b.len() && b.subrange(0, a.len() as int) == a {
            assert(b.drop_first().subrange(0, a.drop_first().len() as int) =~= a.drop_first());
            assert(a[0] == b[0]);
        }
        assert forall|k: int| 0 <= k < a.len() && k < b.len() && a.subrange(0, k) == b.subrange(0, k) && a[k] != b[k]
            implies (text_less(a, b) == (a[k] < b[k])) by {
            if k > 0 {
                assert(a[0] == a.subrange(0, k)[0]);
                assert(b[0] == b.subrange(0, k)[0]);
                assert(a.drop_first().subrange(0, k - 1) =~= b.drop_first().subrange(0, k - 1)) by {
                    assert forall|j: int| 0 <= j < k - 1 implies a.drop_first()[j] == b.drop_first()[j] by {
                        assert(a[j + 1] == a.subrange(0, k)[j + 1]);
                        assert(b[j + 1] == b.subrange(0, k)[j + 1]);
                    }
                }
                assert(a.drop_first()[k - 1] == a[k] && b.drop_first()[k - 1] == b[k]);
            }
        }
    } else if a.len() == 0 && b.len() == 0 {
        assert(a =~= b);
    }
}

proof fn lemma_text_less_irreflexive(a: Seq<char>)
    ensures
        !text_less(a, a),
    decreases a.len(),
{
    if a.len() > 0 {
        lemma_text_less_irreflexive(a.drop_first());
    }
}

/// A stored reading created before `threshold` (both `%Y-%m-%dT%H:%M:%S`
/// texts, compared as texts).
pub open spec fn expired_line(line: Seq<char>, threshold: Seq<char>) -> bool {
    json_str_field(line, "created_at"@) matches Some(c) && text_less(c, threshold)
}

/// The lines that stay after dropping blank lines and the readings with id
/// at most `max_id`, in order.
pub open spec fn kept_after_delete(lines: Seq<Seq<char>>, max_id: u64) -> Seq<Seq<char>>
    decreases lines.len(),
{
    if lines.len() == 0 {
        seq![]
    } else {
        let rest = kept_after_delete(lines.drop_last(), max_id);
        let l = lines.last();
        if blank(l) || flushed_line(l, max_id) { rest } else { rest.push(l) }
    }
}

/// How many non-blank lines are readings with id at most `max_id`.
pub open spec fn deleted_count(lines: Seq<Seq<char>>, max_id: u64) -> nat
    decreases lines.len(),
{
    if lines.len() == 0 {
        0
    } else {
        let l = lines.last();
        deleted_count(lines.drop_last(), max_id) + if !blank(l) && flushed_line(l, max_id) { 1nat } else { 0nat }
    }
}

/// The lines that stay after dropping blank lines and the readings created
/// before `threshold`, in order.
pub open spec fn kept_after_cleanup(lines: Seq<Seq<char>>, threshold: Seq<char>) -> Seq<Seq<char>>
    decreases lines.len(),
{
    if lines.len() == 0 {
        seq![]
    } else {
        let rest = kept_after_cleanup(lines.drop_last(), threshold);
        let l = lines.last();
        if blank(l) || expired_line(l, threshold) { rest } else { rest.push(l) }
    }
}

/// How many non-blank lines are readings created before `threshold`.
pub open spec fn expired_count(lines: Seq<Seq<char>>, threshold: Seq<char>) -> nat
    decreases lines.len(),
{
    if lines.len() == 0 {
        0
    } else {
        let l = lines.last();
        expired_count(lines.drop_last(), threshold) + if !blank(l) && expired_line(l, threshold) { 1nat } else { 0nat }
    }
}

/// The largest id among the stored lines, 0 where none has one.
pub open spec fn max_stored_id(lines: Seq<Seq<char>>) -> nat
    decreases lines.len(),
{
    if lines.len() == 0 {
        0
    } else {
        let m = max_stored_id(lines.drop_last());
        match json_u64_field(lines.last(), "id"@) {
            Some(id) => if id > m { id as nat } else { m },
            None => m,
        }
    }
}

/// The lines of the store to write back after deleting the readings up to
/// `max_id`, and how many readings were deleted.
pub fn delete_up_to_lines(lines: &Vec<String>, max_id: u64) -> (r: (Vec<String>, usize))
    ensures
        r.0.deep_view() == kept_after_delete(lines.deep_view(), max_id),
        r.1 == deleted_count(lines.deep_view(), max_id),
{
    let ghost all = lines.deep_view();
    let mut kept: Vec<String> = Vec::new();
    let mut deleted: usize = 0;
    let mut i: usize = 0;
    while i < lines.len()
        invariant
            i <= lines@.len(),
            all == lines.deep_view(),
            kept.deep_view() == kept_after_delete(all.subrange(0, i as int), max_id),
            deleted == deleted_count(all.subrange(0, i as int), max_id),
            deleted <= i,
        decreases lines@.len() - i,
    {
        proof {
            assert(all.subrange(0, i + 1).drop_last() =~= all.subrange(0, i as int));
            assert(all.subrange(0, i + 1).last() == lines@[i as int]@);
        }
        let line = lines[i].as_str();
        let is_blank = is_blank_line(line);
        let gone = if is_blank {
            false
        } else {
            match json_u64_at(line, "id") {
                Some(id) => id <= max_id,
                None => false,
            }
        };
        if gone {
            deleted = deleted + 1;
        } else if !is_blank {
            let ghost before = kept.deep_view();
            kept.push(lines[i].clone());
            proof {
                assert(kept.deep_view() =~= before.push(lines@[i as int]@));
            }
        }
        i = i + 1;
    }
    proof {
        assert(all.subrange(0, lines@.len() as int) =~= all);
    }
    (kept, deleted)
}

/// The lines of the store to write back after removing the readings created
/// before `threshold`, and how many were removed.
pub fn cleanup_expired_lines(lines: &Vec<String>, threshold: &str) -> (r: (Vec<String>, usize))
    ensures
        r.0.deep_view() == kept_after_cleanup(lines.deep_view(), threshold@),
        r.1 == expired_count(lines.deep_view(), threshold@),
{
    let ghost all = lines.deep_view();
    let mut kept: Vec<String> = Vec::new();
    let mut removed: usize = 0;
    let mut i: usize = 0;
    while i < lines.len()
        invariant
            i <= lines@.len(),
            all == lines.deep_view(),
            kept.deep_view() == kept_after_cleanup(all.subrange(0, i as int), threshold@),
            removed == expired_count(all.subrange(0, i as int), threshold@),
            removed <= i,
        decreases lines@.len() - i,
    {
        proof {
            assert(all.subrange(0, i + 1).drop_last() =~= all.subrange(0, i as int));
            assert(all.subrange(0, i + 1).last() == lines@[i as int]@);
        }
        let line = lines[i].as_str();
        let is_blank = is_blank_line(line);
        let gone = if is_blank {
            false
        } else {
            match json_str_at(line, "created_at") {
                Some(c) => is_text_less(c.as_str(), threshold),
                None => false,
            }
        };
        if gone {
            removed = removed + 1;
        } else if !is_blank {
            let ghost before = kept.deep_view();
            kept.push(lines[i].clone());
            proof {
                assert(kept.deep_view() =~= before.push(lines@[i as int]@));
            }
        }
        i = i + 1;
    }
    proof {
        assert(all.subrange(0, lines@.len() as int) =~= all);
    }
    (kept, removed)
}

/// Compares two texts as `str`'s `<` does.
pub fn is_text_less(a: &str, b: &str) -> (r: bool)
    ensures
        r == text_less(a@, b@),
{
    let n = a.unicode_len();
    let m = b.unicode_len();
    let mut k: usize = 0;
    assert(a@.subrange(0, n as int) =~= a@);
    assert(b@.subrange(0, m as int) =~= b@);
    while k < n && k < m
        invariant
            n == a@.len(),
            m == b@.len(),
            k <= n,
            k <= m,
            text_less(a@, b@) == text_less(a@.subrange(k as int, n as int), b@.subrange(k as int, m as int)),
        decreases n - k,
    {
        let x = a.get_char(k);
        let y = b.get_char(k);
        proof {
            let sa = a@.subrange(k as int, n as int);
            let sb = b@.subrange(k as int, m as int);
            assert(sa[0] == x && sb[0] == y);
            assert(sa.drop_first() =~= a@.subrange(k + 1, n as int));
            assert(sb.drop_first() =~= b@.subrange(k + 1, m as int));
        }
        if x != y {
            return x < y;
        }
        k = k + 1;
    }
    k == n && k < m
}

/// The id the next stored reading gets: one more than the largest stored id
/// (1 for an empty store); `None` where that largest id is `u64::MAX`.
pub fn next_entry_id(lines: &Vec<String>) -> (r: Option<u64>)
    ensures
        max_stored_id(lines.deep_view()) < u64::MAX ==> r == Some((max_stored_id(lines.deep_view()) + 1) as u64),
        max_stored_id(lines.deep_view()) >= u64::MAX ==> r is None,
{
    let ghost all = lines.deep_view();
    let mut max_id: u64 = 0;
    let mut i: usize = 0;
    while i < lines.len()
        invariant
            i <= lines@.len(),
            all == lines.deep_view(),
            max_id == max_stored_id(all.subrange(0, i as int)),
        decreases lines@.len() - i,
    {
        proof {
            assert(all.subrange(0, i + 1).drop_last() =~= all.subrange(0, i as int));
            assert(all.subrange(0, i + 1).last() == lines@[i as int]@);
        }
        match json_u64_at(lines[i].as_str(), "id") {
            Some(id) => {
                if id > max_id {
                    max_id = id;
                }
            },
            None => {},
        }
        i = i + 1;
    }
    proof {
        assert(all.subrange(0, lines@.len() as int) =~= all);
    }
    if max_id < u64::MAX {
        Some(max_id + 1)
    } else {
        None
    }
}


/// After deleting up to `max_id` only non-blank lines remain, none of them a
/// reading with id at most `max_id`; every other non-blank line remains; so
/// kept and deleted lines together are all the non-blank lines.
pub proof fn law_delete_keeps_only_newer(lines: Seq<Seq<char>>, max_id: u64)
    ensures
        forall|l: Seq<char>| #[trigger] kept_after_delete(lines, max_id).contains(l) ==> !blank(l) && !flushed_line(l, max_id),
        forall|i: int| 0 <= i < lines.len() && !blank(lines[i]) && !flushed_line(lines[i], max_id)
            ==> kept_after_delete(lines, max_id).contains(#[trigger] lines[i]),
        kept_after_delete(lines, max_id).len() + deleted_count(lines, max_id) == non_blank_count(lines),
    decreases lines.len(),
{
    if lines.len() > 0 {
        let p = lines.drop_last();
        law_delete_keeps_only_newer(p, max_id);
        let rest = kept_after_delete(p, max_id);
        let l = lines.last();
        assert forall|x: Seq<char>| #[trigger] kept_after_delete(lines, max_id).contains(x) implies !blank(x) && !flushed_line(x, max_id) by {
            let k = kept_after_delete(lines, max_id);
            let j = choose|j: int| 0 <= j < k.len() && k[j] == x;
            if j < rest.len() {
                assert(rest[j] == x);
                assert(rest.contains(x));
            }
        }
        assert forall|i: int| 0 <= i < lines.len() && !blank(lines[i]) && !flushed_line(lines[i], max_id)
            implies kept_after_delete(lines, max_id).contains(#[trigger] lines[i]) by {
            if i < lines.len() - 1 {
                assert(p[i] == lines[i]);
                assert(rest.contains(p[i]));
                let j = choose|j: int| 0 <= j < rest.len() && rest[j] == p[i];
                if !(blank(l) || flushed_line(l, max_id)) {
                    assert(rest.push(l)[j] == lines[i]);
                }
            } else {
                assert(rest.push(l)[rest.len() as int] == lines[i]);
            }
        }
    }
}

/// How many lines are not blank.
pub open spec fn non_blank_count(lines: Seq<Seq<char>>) -> nat
    decreases lines.len(),
{
    if lines.len() == 0 {
        0
    } else {
        non_blank_count(lines.drop_last()) + if blank(lines.last()) { 0nat } else { 1nat }
    }
}

/// The next id is larger than every stored id.
pub proof fn law_next_id_exceeds_stored(lines: Seq<Seq<char>>, i: int)
    requires
        0 <= i < lines.len(),
    ensures
        json_u64_field(lines[i], "id"@) matches Some(id) ==> id < max_stored_id(lines) + 1,
    decreases lines.len(),
{
    if i < lines.len() - 1 {
        law_next_id_exceeds_stored(lines.drop_last(), i);
        assert(lines.drop_last()[i] == lines[i]);
    }
}

} // verus!
