//! Scanning of DBC-format text.
//!
//! A DBC description is a line-oriented text format. The engine reads two
//! things out of it by itself: the Name Index (message name to extended
//! identifier, from `BO_` lines) and the identifier-to-signal-names index
//! (from the `SG_` lines grouped under each `BO_` line). Everything here works
//! on raw bytes; conversion to text happens only where a name leaves the
//! scanner.
use vstd::prelude::*;

verus! {

/// Whitespace inside a line: space, tab, carriage return.
pub open spec fn spec_is_ws(b: u8) -> bool {
    b == 32 || b == 9 || b == 13
}

fn is_ws(b: u8) -> (r: bool)
    ensures
        r == spec_is_ws(b),
{
    b == 32 || b == 9 || b == 13
}

/// Length of the maximal non-whitespace prefix of `s`.
pub open spec fn spec_token_len(s: Seq<u8>) -> int
    decreases s.len(),
{
    if s.len() == 0 || spec_is_ws(s[0]) {
        0
    } else {
        1 + spec_token_len(s.drop_first())
    }
}

pub proof fn lemma_token_len_bounds(s: Seq<u8>)
    ensures
        0 <= spec_token_len(s) <= s.len(),
        forall|j: int| 0 <= j < spec_token_len(s) ==> !spec_is_ws(s[j]),
        spec_token_len(s) < s.len() ==> spec_is_ws(s[spec_token_len(s)]),
        s.len() > 0 && !spec_is_ws(s[0]) ==> spec_token_len(s) >= 1,
    decreases s.len(),
{
    if s.len() == 0 || spec_is_ws(s[0]) {
    } else {
        lemma_token_len_bounds(s.drop_first());
        assert(forall|j: int|
            1 <= j < spec_token_len(s) ==> s[j] == s.drop_first()[j - 1] && !spec_is_ws(
                s.drop_first()[j - 1],
            ));
        if spec_token_len(s) < s.len() {
            assert(s[spec_token_len(s)] == s.drop_first()[spec_token_len(s) - 1]);
        }
    }
}

/// The whitespace-delimited tokens of one line.
pub open spec fn spec_tokens(s: Seq<u8>) -> Seq<Seq<u8>>
    decreases s.len(), s.len() + 1,
    when s.len() >= 0
    via spec_tokens_decreases
{
    if s.len() == 0 {
        seq![]
    } else if spec_is_ws(s[0]) {
        spec_tokens(s.drop_first())
    } else {
        seq![s.take(spec_token_len(s))] + spec_tokens(s.skip(spec_token_len(s)))
    }
}

#[via_fn]
proof fn spec_tokens_decreases(s: Seq<u8>) {
    lemma_token_len_bounds(s);
}

/// A decimal digit.
pub open spec fn spec_is_digit(b: u8) -> bool {
    48 <= b <= 57
}

fn is_digit(b: u8) -> (r: bool)
    ensures
        r == spec_is_digit(b),
{
    48 <= b && b <= 57
}

/// Every byte of `s` is a digit, and there is at least one.
pub open spec fn spec_all_digits(s: Seq<u8>) -> bool {
    s.len() > 0 && forall|i: int| 0 <= i < s.len() ==> spec_is_digit(s[i])
}

/// The numeric value of a digit string, most significant digit first.
pub open spec fn spec_digits_value(s: Seq<u8>) -> int
    decreases s.len(),
{
    if s.len() == 0 {
        0
    } else {
        spec_digits_value(s.drop_last()) * 10 + (s.last() - 48)
    }
}

/// What parsing a token as a 32-bit unsigned integer yields: all-digit tokens
/// whose value fits; everything else is rejected.
pub open spec fn spec_parse_u32(s: Seq<u8>) -> Option<u32> {
    if spec_all_digits(s) && spec_digits_value(s) <= u32::MAX {
        Some(spec_digits_value(s) as u32)
    } else {
        None
    }
}

proof fn lemma_digits_value_grows(s: Seq<u8>, i: int)
    requires
        0 <= i <= s.len(),
        spec_all_digits(s),
    ensures
        spec_digits_value(s.take(i)) <= spec_digits_value(s),
    decreases s.len() - i,
{
    if i == s.len() {
        assert(s.take(i) =~= s);
    } else {
        lemma_digits_value_grows(s, i + 1);
        assert(s.take(i + 1).drop_last() =~= s.take(i));
        assert(s.take(i + 1).last() == s[i]);
        assert(spec_digits_value(s.take(i + 1)) == spec_digits_value(s.take(i)) * 10 + (s[i]
            - 48));
        assert(spec_digits_value(s.take(i)) >= 0) by {
            lemma_digits_value_nonneg(s.take(i));
        }
    }
}

proof fn lemma_digits_value_nonneg(s: Seq<u8>)
    requires
        forall|i: int| 0 <= i < s.len() ==> spec_is_digit(s[i]),
    ensures
        spec_digits_value(s) >= 0,
    decreases s.len(),
{
    if s.len() > 0 {
        assert(forall|i: int| 0 <= i < s.drop_last().len() ==> s.drop_last()[i] == s[i]);
        lemma_digits_value_nonneg(s.drop_last());
    }
}

/// A token that parses carries exactly its digit-string value.
pub proof fn lemma_parse_u32_value(s: Seq<u8>)
    ensures
        spec_parse_u32(s) matches Some(v) ==> spec_digits_value(s) == v,
{
    if spec_parse_u32(s) is Some {
        lemma_digits_value_nonneg(s);
    }
}

/// Parse a whole token as `u32`; `None` when a byte is not a digit, the token
/// is empty, or the value does not fit.
pub fn parse_u32(s: &[u8]) -> (r: Option<u32>)
    ensures
        r == spec_parse_u32(s@),
{
    if s.len() == 0 {
        return None;
    }
    let mut acc: u64 = 0;
    let mut i: usize = 0;
    while i < s.len()
        invariant
            i <= s@.len(),
            s@.len() > 0,
            forall|j: int| 0 <= j < i ==> spec_is_digit(s@[j]),
            acc == spec_digits_value(s@.take(i as int)),
            acc <= u32::MAX,
        decreases s@.len() - i,
    {
        let b = s[i];
        if !is_digit(b) {
            assert(!spec_all_digits(s@));
            return None;
        }
        proof {
            assert(s@.take(i + 1).drop_last() =~= s@.take(i as int));
            assert(s@.take(i + 1).last() == s@[i as int]);
        }
        let next: u64 = acc * 10 + ((b - 48) as u64);
        if next > 0xFFFF_FFFF {
            proof {
                if spec_all_digits(s@) {
                    lemma_digits_value_grows(s@, i + 1);
                }
            }
            return None;
        }
        acc = next;
        i = i + 1;
    }
    proof {
        assert(s@.take(s@.len() as int) =~= s@);
    }
    Some(acc as u32)
}

/// Length of the prefix of `s` before the first occurrence of `b` (the whole
/// length when `b` does not occur).
pub open spec fn spec_find(s: Seq<u8>, b: u8) -> int
    decreases s.len(),
{
    if s.len() == 0 || s[0] == b {
        0
    } else {
        1 + spec_find(s.drop_first(), b)
    }
}

pub proof fn lemma_find_bounds(s: Seq<u8>, b: u8)
    ensures
        0 <= spec_find(s, b) <= s.len(),
        forall|j: int| 0 <= j < spec_find(s, b) ==> s[j] != b,
        spec_find(s, b) < s.len() ==> s[spec_find(s, b)] == b,
    decreases s.len(),
{
    if s.len() == 0 || s[0] == b {
    } else {
        lemma_find_bounds(s.drop_first(), b);
        assert(forall|j: int|
            1 <= j < spec_find(s, b) ==> s[j] == s.drop_first()[j - 1] && s.drop_first()[j - 1]
                != b);
        if spec_find(s, b) < s.len() {
            assert(s[spec_find(s, b)] == s.drop_first()[spec_find(s, b) - 1]);
        }
    }
}

proof fn lemma_token_len_unique(s: Seq<u8>, n: int)
    requires
        0 <= n <= s.len(),
        forall|j: int| 0 <= j < n ==> !spec_is_ws(s[j]),
        n == s.len() || spec_is_ws(s[n]),
    ensures
        spec_token_len(s) == n,
{
    lemma_token_len_bounds(s);
    let t = spec_token_len(s);
    if t < n {
        assert(spec_is_ws(s[t]));
        assert(!spec_is_ws(s[t]));
    }
    if t > n {
        assert(!spec_is_ws(s[n]));
        assert(spec_is_ws(s[n]));
    }
}

pub proof fn lemma_find_unique(s: Seq<u8>, b: u8, n: int)
    requires
        0 <= n <= s.len(),
        forall|j: int| 0 <= j < n ==> s[j] != b,
        n == s.len() || s[n] == b,
    ensures
        spec_find(s, b) == n,
{
    lemma_find_bounds(s, b);
    let t = spec_find(s, b);
    if t < n {
        assert(s[t] == b);
        assert(s[t] != b);
    }
    if t > n {
        assert(s[n] != b);
        assert(s[n] == b);
    }
}

/// Byte-for-byte equality of two slices.
pub fn bytes_eq(a: &[u8], b: &[u8]) -> (r: bool)
    ensures
        r == (a@ =~= b@),
{
    if a.len() != b.len() {
        return false;
    }
    let mut i: usize = 0;
    while i < a.len()
        invariant
            i <= a@.len(),
            a@.len() == b@.len(),
            forall|j: int| 0 <= j < i ==> a@[j] == b@[j],
        decreases a@.len() - i,
    {
        if a[i] != b[i] {
            return false;
        }
        i = i + 1;
    }
    true
}

/// The whitespace-delimited tokens of one line, as owned byte vectors.
pub fn tokens(line: &[u8]) -> (r: Vec<Vec<u8>>)
    ensures
        r.deep_view() =~= spec_tokens(line@),
{
    let mut toks: Vec<Vec<u8>> = Vec::new();
    let mut i: usize = 0;
    proof {
        assert(line@.skip(0) =~= line@);
        assert(toks.deep_view() =~~= Seq::<Seq<u8>>::empty());
        assert(Seq::<Seq<u8>>::empty() + spec_tokens(line@) =~= spec_tokens(line@));
    }
    while i < line.len()
        invariant
            i <= line@.len(),
            spec_tokens(line@) =~= toks.deep_view() + spec_tokens(line@.skip(i as int)),
        decreases line@.len() - i,
    {
        if is_ws(line[i]) {
            proof {
                assert(line@.skip(i as int).drop_first() =~= line@.skip(i + 1));
            }
            i = i + 1;
        } else {
            let ghost rem = line@.skip(i as int);
            let start = i;
            let mut tok: Vec<u8> = Vec::new();
            while i < line.len() && !is_ws(line[i])
                invariant
                    start <= i <= line@.len(),
                    rem == line@.skip(start as int),
                    tok@ =~= line@.subrange(start as int, i as int),
                    forall|j: int| start <= j < i ==> !spec_is_ws(line@[j]),
                decreases line@.len() - i,
            {
                tok.push(line[i]);
                i = i + 1;
            }
            proof {
                assert(forall|j: int|
                    0 <= j < i - start ==> rem[j] == line@[start + j] && !spec_is_ws(rem[j]));
                if i < line@.len() {
                    assert(rem[i - start] == line@[i as int]);
                }
                lemma_token_len_unique(rem, i - start);
                assert(rem.take(i - start) =~= tok@);
                assert(rem.skip(i - start) =~= line@.skip(i as int));
                assert(spec_tokens(rem) =~= seq![tok@] + spec_tokens(line@.skip(i as int)));
            }
            let ghost old_toks = toks.deep_view();
            let ghost tok_view = tok@;
            toks.push(tok);
            proof {
                assert(toks.deep_view() =~~= old_toks.push(tok_view));
            }
        }
    }
    proof {
        assert(line@.skip(line@.len() as int) =~= Seq::<u8>::empty());
    }
    toks
}

/// Splitting of a text into lines at each line-feed byte; the terminator is
/// not part of the line, and a trailing terminator opens no empty last line.
pub open spec fn spec_line_split(text: Seq<u8>) -> Seq<Seq<u8>>
    decreases text.len(),
    when text.len() >= 0
    via spec_line_split_decreases
{
    if text.len() == 0 {
        seq![]
    } else {
        let n = spec_find(text, 10);
        if n == text.len() {
            seq![text]
        } else {
            seq![text.take(n)] + spec_line_split(text.skip(n + 1))
        }
    }
}

#[via_fn]
proof fn spec_line_split_decreases(text: Seq<u8>) {
    lemma_find_bounds(text, 10);
}

/// Split a text into its lines, as owned byte vectors.
pub fn split_lines(text: &[u8]) -> (r: Vec<Vec<u8>>)
    ensures
        r.deep_view() =~= spec_line_split(text@),
{
    let mut out: Vec<Vec<u8>> = Vec::new();
    let mut cur: Vec<u8> = Vec::new();
    let ghost mut line_start: int = 0;
    let mut i: usize = 0;
    proof {
        assert(text@.skip(0) =~= text@);
        assert(out.deep_view() =~~= Seq::<Seq<u8>>::empty());
        assert(Seq::<Seq<u8>>::empty() + spec_line_split(text@) =~= spec_line_split(text@));
    }
    while i < text.len()
        invariant
            0 <= line_start <= i as int <= text@.len(),
            cur@ =~= text@.subrange(line_start, i as int),
            forall|j: int| line_start <= j < i as int ==> text@[j] != 10,
            spec_line_split(text@) =~= out.deep_view() + spec_line_split(
                text@.skip(line_start),
            ),
        decreases text@.len() - i,
    {
        let b = text[i];
        if b == 10 {
            proof {
                let rem = text@.skip(line_start);
                assert(forall|j: int|
                    0 <= j < i as int - line_start ==> rem[j] == text@[line_start + j] && rem[j]
                        != 10);
                assert(rem[i as int - line_start] == 10);
                lemma_find_unique(rem, 10, i as int - line_start);
                assert(rem.take(i as int - line_start) =~= cur@);
                assert(rem.skip(i as int - line_start + 1) =~= text@.skip(i + 1));
                assert(spec_line_split(rem) =~= seq![cur@] + spec_line_split(text@.skip(i + 1)));
            }
            let ghost old_out = out.deep_view();
            let ghost cur_view = cur@;
            out.push(cur);
            cur = Vec::new();
            i = i + 1;
            proof {
                line_start = i as int;
                assert(out.deep_view() =~~= old_out.push(cur_view));
            }
        } else {
            cur.push(b);
            i = i + 1;
        }
    }
    if cur.len() > 0 {
        proof {
            let rem = text@.skip(line_start);
            assert(forall|j: int|
                0 <= j < rem.len() ==> rem[j] == text@[line_start + j] && rem[j] != 10);
            lemma_find_unique(rem, 10, rem.len() as int);
            assert(rem =~= cur@);
            assert(spec_line_split(rem) =~= seq![cur@]);
        }
        let ghost old_out = out.deep_view();
        let ghost cur_view = cur@;
        out.push(cur);
        proof {
            assert(out.deep_view() =~~= old_out.push(cur_view));
        }
    } else {
        proof {
            assert(text@.skip(line_start) =~= Seq::<u8>::empty());
        }
    }
    out
}

/// The message-declaration token `BO_`.
pub open spec fn spec_bo_token() -> Seq<u8> {
    seq![66u8, 79u8, 95u8]
}

/// The signal-declaration token `SG_`.
pub open spec fn spec_sg_token() -> Seq<u8> {
    seq![83u8, 71u8, 95u8]
}

/// A name token loses one trailing colon.
pub open spec fn spec_strip_colon(t: Seq<u8>) -> Seq<u8> {
    if t.len() > 0 && t.last() == 58 {
        t.drop_last()
    } else {
        t
    }
}

/// The Name Index entry contributed by one line: a line is relevant when it
/// begins with the `BO_` token and its second token parses as an integer; the
/// entry maps the third token, trailing colon stripped, to the extended form
/// of that integer.
pub open spec fn spec_bo_entry(line: Seq<u8>) -> Option<(Seq<u8>, u32)> {
    let toks = spec_tokens(line);
    if line.len() > 0 && !spec_is_ws(line[0]) && toks.len() >= 3 && toks[0] == spec_bo_token()
        && spec_parse_u32(toks[1]) is Some {
        Some((spec_strip_colon(toks[2]), crate::spec_extended_id(spec_parse_u32(toks[1])->0)))
    } else {
        None
    }
}

/// A signal-placement field `start|length@endianness sign`: two integers
/// separated by a vertical bar, then `@`, then `0` or `1` (byte order), then
/// `+` or `-` (signedness).
pub open spec fn spec_placement(t: Seq<u8>) -> Option<(u32, u32, bool, bool)> {
    let p = spec_find(t, 124);
    if p >= t.len() {
        None
    } else {
        let rest = t.skip(p + 1);
        let q = spec_find(rest, 64);
        if q >= rest.len() {
            None
        } else {
            let d1 = spec_parse_u32(t.take(p));
            let d2 = spec_parse_u32(rest.take(q));
            let tail = rest.skip(q + 1);
            if d1 is Some && d2 is Some && tail.len() == 2 && (tail[0] == 48 || tail[0] == 49) && (
            tail[1] == 43 || tail[1] == 45) {
                Some((d1->0, d2->0, tail[0] == 49, tail[1] == 45))
            } else {
                None
            }
        }
    }
}

/// The signal entry of one line: a line declares a signal when it begins with
/// whitespace, its first token is `SG_`, its third token is a lone colon, and
/// its fourth token is a well-formed placement. Yields the signal name and
/// the placement's start bit and bit length.
pub open spec fn spec_sg_entry(line: Seq<u8>) -> Option<(Seq<u8>, u32, u32)> {
    let toks = spec_tokens(line);
    if line.len() > 0 && spec_is_ws(line[0]) && toks.len() >= 4 && toks[0] == spec_sg_token()
        && toks[2] == seq![58u8] && spec_placement(toks[3]) is Some {
        Some(
            (toks[1], (spec_placement(toks[3])->0).0, (spec_placement(toks[3])->0).1),
        )
    } else {
        None
    }
}

/// A signal line whose bit placement lies inside the 8-byte frame window; only
/// these are listed in the identifier index and offered to the catalog.
pub open spec fn spec_sg_ok(line: Seq<u8>) -> bool {
    match spec_sg_entry(line) {
        Some((_, start, len)) => start <= 63 && len <= 63,
        None => false,
    }
}

/// The Name Index of a whole text, folded line by line; a later declaration
/// of the same name overrides an earlier one.
pub open spec fn spec_name_index_from(lines: Seq<Seq<u8>>, m: Map<Seq<u8>, u32>) -> Map<
    Seq<u8>,
    u32,
>
    decreases lines.len(),
{
    if lines.len() == 0 {
        m
    } else {
        let m2 = match spec_bo_entry(lines[0]) {
            Some(e) => m.insert(e.0, e.1),
            None => m,
        };
        spec_name_index_from(lines.drop_first(), m2)
    }
}

/// The Name Index of a DBC text: message name bytes to extended identifier.
pub open spec fn spec_name_index(text: Seq<u8>) -> Map<Seq<u8>, u32> {
    spec_name_index_from(spec_line_split(text), Map::<Seq<u8>, u32>::empty())
}

/// The identifier index of a whole text, folded line by line. A relevant
/// `BO_` line opens its extended identifier with an empty signal list (a
/// later declaration of the same identifier resets it); an in-window signal
/// line with a UTF-8 name appends that name to the currently open identifier;
/// every other line changes nothing.
pub open spec fn spec_id_index_from(
    lines: Seq<Seq<u8>>,
    cur: Option<u32>,
    m: Map<u32, Seq<Seq<u8>>>,
) -> Map<u32, Seq<Seq<u8>>>
    decreases lines.len(),
{
    if lines.len() == 0 {
        m
    } else {
        let line = lines[0];
        if spec_bo_entry(line) is Some {
            let id = (spec_bo_entry(line)->0).1;
            spec_id_index_from(lines.drop_first(), Some(id), m.insert(id, seq![]))
        } else if cur is Some && spec_sg_ok(line) && vstd::utf8::valid_utf8(
            (spec_sg_entry(line)->0).0,
        ) {
            let id = cur->0;
            let names = if m.dom().contains(id) {
                m[id]
            } else {
                seq![]
            };
            spec_id_index_from(
                lines.drop_first(),
                cur,
                m.insert(id, names.push((spec_sg_entry(line)->0).0)),
            )
        } else {
            spec_id_index_from(lines.drop_first(), cur, m)
        }
    }
}

/// The identifier index of a DBC text: extended identifier to the names, in
/// declaration order, of the in-window signals of that message.
pub open spec fn spec_id_index(text: Seq<u8>) -> Map<u32, Seq<Seq<u8>>> {
    spec_id_index_from(spec_line_split(text), None, Map::<u32, Seq<Seq<u8>>>::empty())
}

/// An owned copy of a byte slice.
pub fn copy_bytes(a: &[u8]) -> (r: Vec<u8>)
    ensures
        r@ =~= a@,
{
    let mut out: Vec<u8> = Vec::new();
    let mut i: usize = 0;
    while i < a.len()
        invariant
            i <= a@.len(),
            out@ =~= a@.take(i as int),
        decreases a@.len() - i,
    {
        proof {
            assert(a@.take(i + 1) =~= a@.take(i as int).push(a@[i as int]));
        }
        out.push(a[i]);
        i = i + 1;
    }
    proof {
        assert(a@.take(a@.len() as int) =~= a@);
    }
    out
}

/// Parse one line by the Name Index rule.
pub fn bo_entry(line: &[u8]) -> (r: Option<(Vec<u8>, u32)>)
    ensures
        (r is Some) == (spec_bo_entry(line@) is Some),
        r matches Some(p) ==> spec_bo_entry(line@) matches Some(q) && p.0@ == q.0 && p.1 == q.1,
{
    if line.len() == 0 || is_ws(line[0]) {
        return None;
    }
    let toks = tokens(line);
    let ghost st = spec_tokens(line@);
    proof {
        assert(forall|k: int| 0 <= k < st.len() ==> st[k] =~= toks@[k].deep_view());
        assert(forall|k: int| 0 <= k < toks@.len() ==> toks@[k].deep_view() =~= toks@[k]@);
    }
    if toks.len() < 3 {
        return None;
    }
    let t0 = &toks[0];
    if !(t0.len() == 3 && t0[0] == 66 && t0[1] == 79 && t0[2] == 95) {
        proof {
            assert(!(st[0] =~= spec_bo_token()));
        }
        return None;
    }
    proof {
        assert(st[0] =~= spec_bo_token());
    }
    let id = match parse_u32(toks[1].as_slice()) {
        Some(v) => v,
        None => {
            return None;
        },
    };
    let mut name = copy_bytes(toks[2].as_slice());
    if name.len() > 0 && name[name.len() - 1] == 58 {
        name.pop();
        proof {
            assert(name@ =~= spec_strip_colon(st[2]));
        }
    } else {
        proof {
            assert(name@ =~= spec_strip_colon(st[2]));
        }
    }
    Some((name, crate::extended_id(id)))
}

/// Parse a signal-placement token.
pub fn parse_placement(t: &[u8]) -> (r: Option<(u32, u32, bool, bool)>)
    ensures
        r == spec_placement(t@),
{
    let p = find_byte(t, 124);
    if p == t.len() {
        return None;
    }
    let rest = &t[p + 1..t.len()];
    proof {
        assert(rest@ =~= t@.skip(p + 1));
    }
    let q = find_byte(rest, 64);
    if q == rest.len() {
        return None;
    }
    let d1 = &t[0..p];
    let d2 = &rest[0..q];
    proof {
        assert(d1@ =~= t@.take(p as int));
        assert(d2@ =~= rest@.take(q as int));
    }
    let v1 = match parse_u32(d1) {
        Some(v) => v,
        None => {
            return None;
        },
    };
    let v2 = match parse_u32(d2) {
        Some(v) => v,
        None => {
            return None;
        },
    };
    let tail = &rest[q + 1..rest.len()];
    proof {
        assert(tail@ =~= rest@.skip(q + 1));
    }
    if !(tail.len() == 2 && (tail[0] == 48 || tail[0] == 49) && (tail[1] == 43 || tail[1] == 45)) {
        return None;
    }
    Some((v1, v2, tail[0] == 49, tail[1] == 45))
}

/// Position of the first occurrence of `b` in `s`, or the length.
pub fn find_byte(s: &[u8], b: u8) -> (r: usize)
    ensures
        r as int == spec_find(s@, b),
        r <= s@.len(),
{
    let mut i: usize = 0;
    while i < s.len()
        invariant
            i <= s@.len(),
            forall|j: int| 0 <= j < i ==> s@[j] != b,
        decreases s@.len() - i,
    {
        if s[i] == b {
            proof {
                lemma_find_unique(s@, b, i as int);
            }
            return i;
        }
        i = i + 1;
    }
    proof {
        lemma_find_unique(s@, b, s@.len() as int);
    }
    i
}

/// Parse one line by the signal rule; yields the name bytes, start bit and
/// bit length.
pub fn sg_entry(line: &[u8]) -> (r: Option<(Vec<u8>, u32, u32)>)
    ensures
        (r is Some) == (spec_sg_entry(line@) is Some),
        r matches Some(p) ==> spec_sg_entry(line@) matches Some(q) && p.0@ == q.0 && p.1 == q.1
            && p.2 == q.2,
{
    if line.len() == 0 || !is_ws(line[0]) {
        return None;
    }
    let toks = tokens(line);
    let ghost st = spec_tokens(line@);
    proof {
        assert(forall|k: int| 0 <= k < st.len() ==> st[k] =~= toks@[k].deep_view());
        assert(forall|k: int| 0 <= k < toks@.len() ==> toks@[k].deep_view() =~= toks@[k]@);
    }
    if toks.len() < 4 {
        return None;
    }
    let t0 = &toks[0];
    if !(t0.len() == 3 && t0[0] == 83 && t0[1] == 71 && t0[2] == 95) {
        proof {
            assert(!(st[0] =~= spec_sg_token()));
        }
        return None;
    }
    proof {
        assert(st[0] =~= spec_sg_token());
    }
    let t2 = &toks[2];
    if !(t2.len() == 1 && t2[0] == 58) {
        proof {
            assert(!(st[2] =~= seq![58u8]));
        }
        return None;
    }
    proof {
        assert(st[2] =~= seq![58u8]);
    }
    match parse_placement(toks[3].as_slice()) {
        Some((start, len, _le, _sg)) => Some((copy_bytes(toks[1].as_slice()), start, len)),
        None => None,
    }
}

} // verus!
