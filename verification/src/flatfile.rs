//! Flat-file sink format: one header row, then one row per record with
//! columns Timestamp, Url, Selector, Content, Host. Fields holding a
//! comma, quote or line break are quoted, with quotes doubled. Encoding
//! and decoding are both verified, and decoding an encoded batch is
//! proved to give back the batch.

use vstd::prelude::*;

use crate::errors::ScrapeError;
use crate::record::{SelectorRecord, SelectorRecordV};
use crate::strutil::push_char;

verus! {

/// The characters that force a field to be quoted.
pub open spec fn is_special(c: char) -> bool {
    c == ',' || c == '"' || c == '\n' || c == '\r'
}

pub open spec fn is_digit(c: char) -> bool {
    '0' <= c && c <= '9'
}

/// The character for one decimal digit.
pub open spec fn digit_char(d: int) -> char {
    if d == 0 {
        '0'
    } else if d == 1 {
        '1'
    } else if d == 2 {
        '2'
    } else if d == 3 {
        '3'
    } else if d == 4 {
        '4'
    } else if d == 5 {
        '5'
    } else if d == 6 {
        '6'
    } else if d == 7 {
        '7'
    } else if d == 8 {
        '8'
    } else {
        '9'
    }
}

/// The value of one decimal digit character.
pub open spec fn char_digit(c: char) -> int {
    if c == '0' {
        0
    } else if c == '1' {
        1
    } else if c == '2' {
        2
    } else if c == '3' {
        3
    } else if c == '4' {
        4
    } else if c == '5' {
        5
    } else if c == '6' {
        6
    } else if c == '7' {
        7
    } else if c == '8' {
        8
    } else {
        9
    }
}

/// The decimal digit string of a number, most significant digit first.
pub open spec fn dec_digits(n: nat) -> Seq<char>
    decreases n,
{
    if n < 10 {
        seq![digit_char(n as int)]
    } else {
        dec_digits(n / 10) + seq![digit_char((n % 10) as int)]
    }
}

/// The value of a digit string, read most significant digit first.
pub open spec fn dec_value(s: Seq<char>) -> nat
    decreases s.len(),
{
    if s.len() == 0 {
        0
    } else {
        dec_value(s.drop_last()) * 10 + char_digit(s.last()) as nat
    }
}

pub open spec fn all_digits(s: Seq<char>) -> bool {
    forall|i: int| 0 <= i < s.len() ==> is_digit(#[trigger] s[i])
}

/// Whether a field must be quoted to survive the row format.
pub open spec fn needs_quote(f: Seq<char>) -> bool {
    exists|i: int| 0 <= i < f.len() && is_special(#[trigger] f[i])
}

/// A field's characters with every quote doubled.
pub open spec fn escape_quotes(f: Seq<char>) -> Seq<char>
    decreases f.len(),
{
    if f.len() == 0 {
        Seq::<char>::empty()
    } else {
        (if f[0] == '"' {
            seq!['"', '"']
        } else {
            seq![f[0]]
        }) + escape_quotes(f.skip(1))
    }
}

/// A field as it stands in a row: quoted with doubled quotes when it
/// holds a special character, bare otherwise.
pub open spec fn enc_field(f: Seq<char>) -> Seq<char> {
    if needs_quote(f) {
        seq!['"'] + escape_quotes(f) + seq!['"']
    } else {
        f
    }
}

/// One record as one row, fields in the fixed column order, ending in a
/// line feed.
pub open spec fn enc_record(r: SelectorRecordV) -> Seq<char> {
    enc_field(dec_digits(r.timestamp as nat)) + seq![','] + enc_field(r.url) + seq![',']
        + enc_field(r.selector) + seq![','] + enc_field(r.content) + seq![','] + enc_field(r.host)
        + seq!['\n']
}

/// The rows of a batch, in batch order.
pub open spec fn enc_records(rs: Seq<SelectorRecordV>) -> Seq<char>
    decreases rs.len(),
{
    if rs.len() == 0 {
        Seq::<char>::empty()
    } else {
        enc_record(rs[0]) + enc_records(rs.skip(1))
    }
}

/// The whole file: the fixed header row, then the batch's rows.
pub open spec fn enc_batch(rs: Seq<SelectorRecordV>) -> Seq<char> {
    "Timestamp,Url,Selector,Content,Host\n"@ + enc_records(rs)
}

proof fn lemma_escape_quotes_append(a: Seq<char>, b: Seq<char>)
    ensures
        escape_quotes(a + b) == escape_quotes(a) + escape_quotes(b),
    decreases a.len(),
{
    if a.len() == 0 {
        assert(a + b =~= b);
        assert(escape_quotes(a) + escape_quotes(b) =~= escape_quotes(b));
    } else {
        lemma_escape_quotes_append(a.skip(1), b);
        assert((a + b).skip(1) =~= a.skip(1) + b);
        assert((a + b)[0] == a[0]);
        assert((if a[0] == '"' {
            seq!['"', '"']
        } else {
            seq![a[0]]
        }) + (escape_quotes(a.skip(1)) + escape_quotes(b)) =~= ((if a[0] == '"' {
            seq!['"', '"']
        } else {
            seq![a[0]]
        }) + escape_quotes(a.skip(1))) + escape_quotes(b));
    }
}

proof fn lemma_enc_records_append(a: Seq<SelectorRecordV>, b: Seq<SelectorRecordV>)
    ensures
        enc_records(a + b) == enc_records(a) + enc_records(b),
    decreases a.len(),
{
    if a.len() == 0 {
        assert(a + b =~= b);
        assert(enc_records(a) + enc_records(b) =~= enc_records(b));
    } else {
        lemma_enc_records_append(a.skip(1), b);
        assert((a + b).skip(1) =~= a.skip(1) + b);
        assert((a + b)[0] == a[0]);
        assert(enc_record(a[0]) + (enc_records(a.skip(1)) + enc_records(b)) =~= (enc_record(a[0])
            + enc_records(a.skip(1))) + enc_records(b));
    }
}

proof fn lemma_escape_quotes_single(c: char)
    ensures
        escape_quotes(seq![c]) == (if c == '"' {
            seq!['"', '"']
        } else {
            seq![c]
        }),
{
    assert(seq![c].skip(1) =~= Seq::<char>::empty());
    assert(escape_quotes(Seq::<char>::empty()) =~= Seq::<char>::empty());
    assert(escape_quotes(seq![c]) =~= (if c == '"' {
        seq!['"', '"']
    } else {
        seq![c]
    }) + Seq::<char>::empty());
    assert((if c == '"' {
        seq!['"', '"']
    } else {
        seq![c]
    }) + Seq::<char>::empty() =~= (if c == '"' {
        seq!['"', '"']
    } else {
        seq![c]
    }));
}

proof fn lemma_enc_records_single(r: SelectorRecordV)
    ensures
        enc_records(seq![r]) == enc_record(r),
{
    assert(seq![r].skip(1) =~= Seq::<SelectorRecordV>::empty());
    assert(enc_records(Seq::<SelectorRecordV>::empty()) =~= Seq::<char>::empty());
    assert(enc_records(seq![r]) =~= enc_record(seq![r][0]) + Seq::<char>::empty());
    assert(enc_record(seq![r][0]) + Seq::<char>::empty() =~= enc_record(r));
}

/// Every character of a digit string is a digit, and no digit is special.
proof fn lemma_dec_digits_all_digits(n: nat)
    ensures
        all_digits(dec_digits(n)),
        !needs_quote(dec_digits(n)),
        dec_digits(n).len() >= 1,
    decreases n,
{
    if n < 10 {
    } else {
        lemma_dec_digits_all_digits(n / 10);
        assert forall|i: int| 0 <= i < dec_digits(n).len() implies is_digit(
            #[trigger] dec_digits(n)[i],
        ) by {
            if i < dec_digits(n / 10).len() {
                assert(dec_digits(n)[i] == dec_digits(n / 10)[i]);
            } else {
                assert(dec_digits(n)[i] == digit_char((n % 10) as int));
            }
        }
    }
    assert forall|i: int| 0 <= i < dec_digits(n).len() implies !is_special(
        #[trigger] dec_digits(n)[i],
    ) by {
        assert(is_digit(dec_digits(n)[i]));
    }
}

fn digit_to_char(d: u64) -> (c: char)
    requires
        d < 10,
    ensures
        c == digit_char(d as int),
{
    if d == 0 {
        '0'
    } else if d == 1 {
        '1'
    } else if d == 2 {
        '2'
    } else if d == 3 {
        '3'
    } else if d == 4 {
        '4'
    } else if d == 5 {
        '5'
    } else if d == 6 {
        '6'
    } else if d == 7 {
        '7'
    } else if d == 8 {
        '8'
    } else {
        '9'
    }
}

/// Appends the decimal digits of `n`.
fn push_dec(n: u64, out: &mut String)
    ensures
        final(out)@ == old(out)@ + dec_digits(n as nat),
    decreases n,
{
    if n < 10 {
        push_char(out, digit_to_char(n));
        proof {
            assert(old(out)@ + dec_digits(n as nat) =~= old(out)@.push(
                digit_char(n as int),
            ));
        }
    } else {
        push_dec(n / 10, out);
        push_char(out, digit_to_char(n % 10));
        proof {
            assert(old(out)@ + dec_digits(n as nat) =~= (old(out)@ + dec_digits(
                (n / 10) as nat,
            )).push(digit_char((n % 10) as int)));
        }
    }
}

/// The decimal digit string of a number.
pub fn u64_to_string(n: u64) -> (r: String)
    ensures
        r@ == dec_digits(n as nat),
{
    let mut out = String::new();
    push_dec(n, &mut out);
    proof {
        assert(Seq::<char>::empty() + dec_digits(n as nat) =~= dec_digits(n as nat));
    }
    out
}

fn is_special_char(c: char) -> (r: bool)
    ensures
        r == is_special(c),
{
    c == ',' || c == '"' || c == '\n' || c == '\r'
}

/// Whether the field must be quoted.
fn field_needs_quote(f: &str) -> (r: bool)
    ensures
        r == needs_quote(f@),
{
    let n = f.unicode_len();
    let mut i: usize = 0;
    while i < n
        invariant
            0 <= i <= n,
            n == f@.len(),
            forall|j: int| 0 <= j < i ==> !is_special(#[trigger] f@[j]),
        decreases n - i,
    {
        if is_special_char(f.get_char(i)) {
            return true;
        }
        i = i + 1;
    }
    false
}

/// Appends one field in row form.
fn append_field(out: &mut String, f: &str)
    ensures
        final(out)@ == old(out)@ + enc_field(f@),
{
    if !field_needs_quote(f) {
        out.append(f);
        return ;
    }
    push_char(out, '"');
    let n = f.unicode_len();
    let mut i: usize = 0;
    proof {
        assert(f@.take(0) =~= Seq::<char>::empty());
        assert(out@ + escape_quotes(f@.take(0)) =~= out@);
    }
    let ghost quoted_start = out@;
    while i < n
        invariant
            0 <= i <= n,
            n == f@.len(),
            out@ == quoted_start + escape_quotes(f@.take(i as int)),
        decreases n - i,
    {
        let c = f.get_char(i);
        proof {
            assert(f@.take(i as int + 1) =~= f@.take(i as int) + seq![f@[i as int]]);
            lemma_escape_quotes_append(f@.take(i as int), seq![f@[i as int]]);
            lemma_escape_quotes_single(f@[i as int]);
        }
        if c == '"' {
            push_char(out, '"');
            push_char(out, '"');
            proof {
                assert(quoted_start + escape_quotes(f@.take(i as int + 1)) =~= (quoted_start
                    + escape_quotes(f@.take(i as int))).push('"').push('"'));
            }
        } else {
            push_char(out, c);
            proof {
                assert(quoted_start + escape_quotes(f@.take(i as int + 1)) =~= (quoted_start
                    + escape_quotes(f@.take(i as int))).push(f@[i as int]));
            }
        }
        i = i + 1;
    }
    push_char(out, '"');
    proof {
        assert(f@.take(n as int) =~= f@);
        assert(old(out)@ + enc_field(f@) =~= (old(out)@.push('"') + escape_quotes(f@)).push(
            '"',
        ));
        assert(quoted_start =~= old(out)@.push('"'));
    }
}

/// Appends one record as one row.
fn append_record(out: &mut String, r: &SelectorRecord)
    ensures
        final(out)@ == old(out)@ + enc_record(r@),
{
    let ts = u64_to_string(r.timestamp);
    proof {
        lemma_dec_digits_all_digits(r.timestamp as nat);
        assert(enc_field(dec_digits(r.timestamp as nat)) == dec_digits(r.timestamp as nat));
    }
    out.append(ts.as_str());
    push_char(out, ',');
    append_field(out, r.url.as_str());
    push_char(out, ',');
    append_field(out, r.selector.as_str());
    push_char(out, ',');
    append_field(out, r.content.as_str());
    push_char(out, ',');
    append_field(out, r.host.as_str());
    push_char(out, '\n');
    proof {
        let a0 = old(out)@ + dec_digits(r@.timestamp as nat);
        let a1 = a0.push(',') + enc_field(r@.url);
        let a2 = a1.push(',') + enc_field(r@.selector);
        let a3 = a2.push(',') + enc_field(r@.content);
        let a4 = a3.push(',') + enc_field(r@.host);
        assert(old(out)@ + enc_record(r@) =~= a4.push('\n'));
    }
}

/// Reads one quoted field, entered just after its opening quote: doubled
/// quotes become one quote, a lone quote closes the field. `None` on an
/// unterminated field. Returns the field and the rest after the closing
/// quote.
pub open spec fn parse_quoted(s: Seq<char>) -> Option<(Seq<char>, Seq<char>)>
    decreases s.len(),
{
    if s.len() == 0 {
        None
    } else if s[0] == '"' {
        if s.len() >= 2 && s[1] == '"' {
            match parse_quoted(s.skip(2)) {
                Some(p) => Some((seq!['"'] + p.0, p.1)),
                None => None,
            }
        } else {
            Some((Seq::<char>::empty(), s.skip(1)))
        }
    } else {
        match parse_quoted(s.skip(1)) {
            Some(p) => Some((seq![s[0]] + p.0, p.1)),
            None => None,
        }
    }
}

/// Reads one bare field: everything up to the next comma or line feed.
/// A stray quote or carriage return makes the row malformed.
pub open spec fn parse_unquoted(s: Seq<char>) -> Option<(Seq<char>, Seq<char>)>
    decreases s.len(),
{
    if s.len() == 0 {
        Some((Seq::<char>::empty(), s))
    } else if s[0] == ',' || s[0] == '\n' {
        Some((Seq::<char>::empty(), s))
    } else if s[0] == '"' || s[0] == '\r' {
        None
    } else {
        match parse_unquoted(s.skip(1)) {
            Some(p) => Some((seq![s[0]] + p.0, p.1)),
            None => None,
        }
    }
}

/// Reads one field, quoted or bare. Returns the field and the rest,
/// which begins at the delimiter after the field.
pub open spec fn parse_field(s: Seq<char>) -> Option<(Seq<char>, Seq<char>)> {
    if s.len() > 0 && s[0] == '"' {
        parse_quoted(s.skip(1))
    } else {
        parse_unquoted(s)
    }
}

/// Reads one field and consumes the one delimiter that must follow it.
pub open spec fn parse_field_then(s: Seq<char>, delim: char) -> Option<(Seq<char>, Seq<char>)> {
    match parse_field(s) {
        Some(p) => if p.1.len() > 0 && p.1[0] == delim {
            Some((p.0, p.1.skip(1)))
        } else {
            None
        },
        None => None,
    }
}

/// Reads one row as a record: five fields in the fixed column order, the
/// first a decimal timestamp that fits an unsigned 64-bit value, ending
/// in a line feed. Returns the record and the rest after the row.
pub open spec fn parse_record(s: Seq<char>) -> Option<(SelectorRecordV, Seq<char>)> {
    match parse_field_then(s, ',') {
        Some((f1, r1)) => match parse_field_then(r1, ',') {
            Some((f2, r2)) => match parse_field_then(r2, ',') {
                Some((f3, r3)) => match parse_field_then(r3, ',') {
                    Some((f4, r4)) => match parse_field_then(r4, '\n') {
                        Some((f5, r5)) => if all_digits(f1) && f1.len() >= 1 && dec_value(f1)
                            <= u64::MAX {
                            Some(
                                (
                                    SelectorRecordV {
                                        timestamp: dec_value(f1) as u64,
                                        url: f2,
                                        selector: f3,
                                        content: f4,
                                        host: f5,
                                    },
                                    r5,
                                ),
                            )
                        } else {
                            None
                        },
                        None => None,
                    },
                    None => None,
                },
                None => None,
            },
            None => None,
        },
        None => None,
    }
}

/// Reads rows until the text is exhausted; `None` if any row is
/// malformed.
pub open spec fn parse_records(s: Seq<char>) -> Option<Seq<SelectorRecordV>>
    decreases s.len(),
{
    if s.len() == 0 {
        Some(Seq::<SelectorRecordV>::empty())
    } else {
        match parse_record(s) {
            Some((r, rest)) => if rest.len() < s.len() {
                match parse_records(rest) {
                    Some(rs) => Some(seq![r] + rs),
                    None => None,
                }
            } else {
                None
            },
            None => None,
        }
    }
}

/// Reads a whole flat file back: the fixed header row, then the records.
pub open spec fn parse_batch(s: Seq<char>) -> Option<Seq<SelectorRecordV>> {
    let h = "Timestamp,Url,Selector,Content,Host\n"@;
    if s.len() >= h.len() && s.take(h.len() as int) == h {
        parse_records(s.skip(h.len() as int))
    } else {
        None
    }
}

proof fn lemma_parse_quoted_rt(f: Seq<char>, rest: Seq<char>)
    requires
        rest.len() == 0 || rest[0] != '"',
    ensures
        parse_quoted(escape_quotes(f) + seq!['"'] + rest) == Some((f, rest)),
    decreases f.len(),
{
    let s = escape_quotes(f) + seq!['"'] + rest;
    if f.len() == 0 {
        assert(escape_quotes(f) =~= Seq::<char>::empty());
        assert(s =~= seq!['"'] + rest);
        assert(s[0] == '"');
        if rest.len() > 0 {
            assert(s[1] == rest[0]);
        }
        assert(s.skip(1) =~= rest);
    } else {
        lemma_parse_quoted_rt(f.skip(1), rest);
        if f[0] == '"' {
            assert(escape_quotes(f) =~= seq!['"', '"'] + escape_quotes(f.skip(1)));
            assert(s[0] == '"');
            assert(s[1] == '"');
            assert(s.skip(2) =~= escape_quotes(f.skip(1)) + seq!['"'] + rest);
            assert(seq!['"'] + f.skip(1) =~= f);
        } else {
            assert(escape_quotes(f) =~= seq![f[0]] + escape_quotes(f.skip(1)));
            assert(s[0] == f[0]);
            assert(s.skip(1) =~= escape_quotes(f.skip(1)) + seq!['"'] + rest);
            assert(seq![f[0]] + f.skip(1) =~= f);
        }
    }
}

proof fn lemma_parse_unquoted_rt(f: Seq<char>, rest: Seq<char>)
    requires
        !needs_quote(f),
        rest.len() == 0 || rest[0] == ',' || rest[0] == '\n',
    ensures
        parse_unquoted(f + rest) == Some((f, rest)),
    decreases f.len(),
{
    let s = f + rest;
    if f.len() == 0 {
        assert(s =~= rest);
    } else {
        assert(!is_special(f[0]));
        assert(forall|i: int| 0 <= i < f.skip(1).len() ==> f.skip(1)[i] == f[i + 1]);
        assert(!needs_quote(f.skip(1)));
        lemma_parse_unquoted_rt(f.skip(1), rest);
        assert(s[0] == f[0]);
        assert(s.skip(1) =~= f.skip(1) + rest);
        assert(seq![f[0]] + f.skip(1) =~= f);
    }
}

proof fn lemma_parse_field_rt(f: Seq<char>, rest: Seq<char>)
    requires
        rest.len() > 0,
        rest[0] == ',' || rest[0] == '\n',
    ensures
        parse_field(enc_field(f) + rest) == Some((f, rest)),
{
    let s = enc_field(f) + rest;
    if needs_quote(f) {
        assert(s =~= seq!['"'] + (escape_quotes(f) + seq!['"'] + rest));
        assert(s[0] == '"');
        assert(s.skip(1) =~= escape_quotes(f) + seq!['"'] + rest);
        lemma_parse_quoted_rt(f, rest);
    } else {
        assert(s =~= f + rest);
        if f.len() > 0 {
            assert(!is_special(f[0]));
            assert(s[0] == f[0]);
        } else {
            assert(s[0] == rest[0]);
        }
        assert(!(s[0] == '"'));
        lemma_parse_unquoted_rt(f, rest);
    }
}

proof fn lemma_dec_value_roundtrip(n: nat)
    ensures
        dec_value(dec_digits(n)) == n,
    decreases n,
{
    if n < 10 {
        let d = dec_digits(n);
        assert(d.drop_last() =~= Seq::<char>::empty());
        assert(dec_value(Seq::<char>::empty()) == 0);
        assert(d.last() == digit_char(n as int));
        assert(char_digit(digit_char(n as int)) == n);
        assert(dec_value(d) == dec_value(d.drop_last()) * 10 + char_digit(d.last()));
        assert(dec_value(d) == n);
    } else {
        lemma_dec_value_roundtrip(n / 10);
        let d = dec_digits(n);
        assert(d.drop_last() =~= dec_digits(n / 10));
        assert(d.last() == digit_char((n % 10) as int));
        assert(char_digit(digit_char((n % 10) as int)) == n % 10);
        assert(dec_value(d) == dec_value(d.drop_last()) * 10 + char_digit(d.last()));
        assert(dec_value(d) == (n / 10) * 10 + n % 10);
        assert(n == (n / 10) * 10 + n % 10) by (nonlinear_arith);
    }
}

#[verifier::rlimit(60)]
proof fn lemma_parse_record_rt(r: SelectorRecordV, rest: Seq<char>)
    ensures
        parse_record(enc_record(r) + rest) == Some((r, rest)),
{
    let ts = dec_digits(r.timestamp as nat);
    lemma_dec_digits_all_digits(r.timestamp as nat);
    lemma_dec_value_roundtrip(r.timestamp as nat);
    assert(enc_field(ts) == ts);
    let s5 = enc_field(r.host) + (seq!['\n'] + rest);
    let s4 = enc_field(r.content) + (seq![','] + s5);
    let s3 = enc_field(r.selector) + (seq![','] + s4);
    let s2 = enc_field(r.url) + (seq![','] + s3);
    let s1 = enc_field(ts) + (seq![','] + s2);
    assert(enc_record(r) + rest =~= s1);
    lemma_parse_field_rt(ts, seq![','] + s2);
    assert((seq![','] + s2).skip(1) =~= s2);
    lemma_parse_field_rt(r.url, seq![','] + s3);
    assert((seq![','] + s3).skip(1) =~= s3);
    lemma_parse_field_rt(r.selector, seq![','] + s4);
    assert((seq![','] + s4).skip(1) =~= s4);
    lemma_parse_field_rt(r.content, seq![','] + s5);
    assert((seq![','] + s5).skip(1) =~= s5);
    lemma_parse_field_rt(r.host, seq!['\n'] + rest);
    assert((seq!['\n'] + rest).skip(1) =~= rest);
    assert(parse_record(enc_record(r) + rest) == Some(
        (
            SelectorRecordV {
                timestamp: dec_value(ts) as u64,
                url: r.url,
                selector: r.selector,
                content: r.content,
                host: r.host,
            },
            rest,
        ),
    ));
    assert(SelectorRecordV {
        timestamp: dec_value(ts) as u64,
        url: r.url,
        selector: r.selector,
        content: r.content,
        host: r.host,
    } =~= r);
}

proof fn lemma_parse_records_rt(rs: Seq<SelectorRecordV>)
    ensures
        parse_records(enc_records(rs)) == Some(rs),
    decreases rs.len(),
{
    if rs.len() == 0 {
        assert(enc_records(rs).len() == 0);
    } else {
        let s = enc_records(rs);
        let tail = enc_records(rs.skip(1));
        assert(s =~= enc_record(rs[0]) + tail);
        lemma_parse_record_rt(rs[0], tail);
        assert(enc_record(rs[0]).len() >= 1);
        assert(tail.len() < s.len());
        lemma_parse_records_rt(rs.skip(1));
        assert(seq![rs[0]] + rs.skip(1) =~= rs);
    }
}

/// Law: re-reading a serialized batch yields exactly the batch, every
/// record equal field for field, however many records it holds.
pub proof fn lemma_flatfile_round_trip(rs: Seq<SelectorRecordV>)
    ensures
        parse_batch(enc_batch(rs)) == Some(rs),
{
    let h = "Timestamp,Url,Selector,Content,Host\n"@;
    let s = enc_batch(rs);
    assert(s.take(h.len() as int) =~= h);
    assert(s.skip(h.len() as int) =~= enc_records(rs));
    lemma_parse_records_rt(rs);
}

proof fn lemma_dec_value_prefix(s: Seq<char>, i: int)
    requires
        0 <= i <= s.len(),
    ensures
        dec_value(s.take(i)) <= dec_value(s),
    decreases s.len(),
{
    if i == s.len() {
        assert(s.take(i) =~= s);
    } else {
        assert(s.drop_last().take(i) =~= s.take(i));
        lemma_dec_value_prefix(s.drop_last(), i);
        assert(dec_value(s) == dec_value(s.drop_last()) * 10 + char_digit(s.last()));
        assert(dec_value(s.drop_last()) * 10 >= dec_value(s.drop_last()));
    }
}

fn char_to_digit(c: char) -> (r: Option<u64>)
    ensures
        match r {
            Some(d) => is_digit(c) && d < 10 && d as int == char_digit(c),
            None => !is_digit(c),
        },
{
    if c == '0' {
        Some(0)
    } else if c == '1' {
        Some(1)
    } else if c == '2' {
        Some(2)
    } else if c == '3' {
        Some(3)
    } else if c == '4' {
        Some(4)
    } else if c == '5' {
        Some(5)
    } else if c == '6' {
        Some(6)
    } else if c == '7' {
        Some(7)
    } else if c == '8' {
        Some(8)
    } else if c == '9' {
        Some(9)
    } else {
        None
    }
}

/// Reads a decimal timestamp field; `None` when the field is empty, has
/// a non-digit, or does not fit an unsigned 64-bit value.
fn parse_u64_field(f: &str) -> (r: Option<u64>)
    ensures
        match r {
            Some(v) => all_digits(f@) && f@.len() >= 1 && dec_value(f@) == v as nat,
            None => !(all_digits(f@) && f@.len() >= 1 && dec_value(f@) <= u64::MAX),
        },
{
    let n = f.unicode_len();
    if n == 0 {
        return None;
    }
    let mut acc: u128 = 0;
    let mut i: usize = 0;
    proof {
        assert(f@.take(0) =~= Seq::<char>::empty());
        assert(dec_value(Seq::<char>::empty()) == 0);
    }
    while i < n
        invariant
            0 <= i <= n,
            n == f@.len(),
            acc <= u64::MAX,
            acc as nat == dec_value(f@.take(i as int)),
            all_digits(f@.take(i as int)),
        decreases n - i,
    {
        let c = f.get_char(i);
        proof {
            assert(f@.take(i as int + 1).drop_last() =~= f@.take(i as int));
            assert(f@.take(i as int + 1).last() == f@[i as int]);
        }
        match char_to_digit(c) {
            Some(d) => {
                let next: u128 = acc * 10 + d as u128;
                proof {
                    assert(next as nat == dec_value(f@.take(i as int + 1)));
                    assert forall|j: int| 0 <= j < i + 1 implies is_digit(
                        #[trigger] f@.take(i as int + 1)[j],
                    ) by {
                        if j < i {
                            assert(f@.take(i as int + 1)[j] == f@.take(i as int)[j]);
                        }
                    }
                }
                if next > u64::MAX as u128 {
                    proof {
                        lemma_dec_value_prefix(f@, i as int + 1);
                    }
                    return None;
                }
                acc = next;
            },
            None => {
                proof {
                    assert(!is_digit(f@[i as int]));
                }
                return None;
            },
        }
        i = i + 1;
    }
    proof {
        assert(f@.take(n as int) =~= f@);
    }
    Some(acc as u64)
}

/// Reads one quoted field of `s`, entered at the position just after its
/// opening quote; gives back the field and the position after its
/// closing quote.
fn parse_quoted_at(s: &str, start: usize) -> (r: Option<(String, usize)>)
    requires
        start <= s@.len(),
    ensures
        match r {
            Some(p) => start <= p.1 <= s@.len() && parse_quoted(s@.skip(start as int)) == Some(
                (p.0@, s@.skip(p.1 as int)),
            ),
            None => parse_quoted(s@.skip(start as int)) is None,
        },
{
    let n = s.unicode_len();
    let mut val = String::new();
    let mut p = start;
    loop
        invariant
            start <= p <= n,
            n == s@.len(),
            val@.len() <= p - start,
            (match parse_quoted(s@.skip(p as int)) {
                Some(q) => parse_quoted(s@.skip(start as int)) == Some((val@ + q.0, q.1)),
                None => parse_quoted(s@.skip(start as int)) is None,
            }),
        decreases n - p,
    {
        if p >= n {
            proof {
                assert(s@.skip(p as int).len() == 0);
            }
            return None;
        }
        let c = s.get_char(p);
        proof {
            assert(s@.skip(p as int).len() == n - p);
            assert(s@.skip(p as int)[0] == s@[p as int]);
            if p + 1 < n {
                assert(s@.skip(p as int)[1] == s@[p as int + 1]);
            }
            assert(s@.skip(p as int).skip(1) =~= s@.skip(p as int + 1));
            if p + 2 <= n {
                assert(s@.skip(p as int).skip(2) =~= s@.skip(p as int + 2));
            }
        }
        if c == '"' {
            if p + 1 < n && s.get_char(p + 1) == '"' {
                proof {
                    match parse_quoted(s@.skip(p as int + 2)) {
                        Some(q) => {
                            assert(val@.push('"') + q.0 =~= val@ + (seq!['"'] + q.0));
                        },
                        None => {},
                    }
                }
                push_char(&mut val, '"');
                p = p + 2;
            } else {
                proof {
                    assert(parse_quoted(s@.skip(p as int)) == Some(
                        (Seq::<char>::empty(), s@.skip(p as int + 1)),
                    ));
                    assert(val@ + Seq::<char>::empty() =~= val@);
                }
                return Some((val, p + 1));
            }
        } else {
            proof {
                match parse_quoted(s@.skip(p as int + 1)) {
                    Some(q) => {
                        assert(val@.push(s@[p as int]) + q.0 =~= val@ + (seq![s@[p as int]]
                            + q.0));
                    },
                    None => {},
                }
            }
            push_char(&mut val, c);
            p = p + 1;
        }
    }
}

/// Reads one bare field of `s` from the given position; gives back the
/// field and the position of the delimiter after it.
fn parse_unquoted_at(s: &str, start: usize) -> (r: Option<(String, usize)>)
    requires
        start <= s@.len(),
    ensures
        match r {
            Some(p) => start <= p.1 <= s@.len() && parse_unquoted(s@.skip(start as int)) == Some(
                (p.0@, s@.skip(p.1 as int)),
            ),
            None => parse_unquoted(s@.skip(start as int)) is None,
        },
{
    let n = s.unicode_len();
    let mut val = String::new();
    let mut p = start;
    loop
        invariant
            start <= p <= n,
            n == s@.len(),
            (match parse_unquoted(s@.skip(p as int)) {
                Some(q) => parse_unquoted(s@.skip(start as int)) == Some((val@ + q.0, q.1)),
                None => parse_unquoted(s@.skip(start as int)) is None,
            }),
        decreases n - p,
    {
        if p >= n {
            proof {
                assert(s@.skip(p as int).len() == 0);
                assert(parse_unquoted(s@.skip(p as int)) == Some(
                    (Seq::<char>::empty(), s@.skip(p as int)),
                ));
                assert(val@ + Seq::<char>::empty() =~= val@);
            }
            return Some((val, p));
        }
        let c = s.get_char(p);
        proof {
            assert(s@.skip(p as int).len() == n - p);
            assert(s@.skip(p as int)[0] == s@[p as int]);
            assert(s@.skip(p as int).skip(1) =~= s@.skip(p as int + 1));
        }
        if c == ',' || c == '\n' {
            proof {
                assert(parse_unquoted(s@.skip(p as int)) == Some(
                    (Seq::<char>::empty(), s@.skip(p as int)),
                ));
                assert(val@ + Seq::<char>::empty() =~= val@);
            }
            return Some((val, p));
        } else if c == '"' || c == '\r' {
            return None;
        } else {
            proof {
                match parse_unquoted(s@.skip(p as int + 1)) {
                    Some(q) => {
                        assert(val@.push(s@[p as int]) + q.0 =~= val@ + (seq![s@[p as int]]
                            + q.0));
                    },
                    None => {},
                }
            }
            push_char(&mut val, c);
            p = p + 1;
        }
    }
}

/// Reads one field, quoted or bare, followed by the given delimiter;
/// gives back the field and the position after the delimiter.
fn parse_field_then_at(s: &str, start: usize, delim: char) -> (r: Option<(String, usize)>)
    requires
        start <= s@.len(),
    ensures
        match r {
            Some(p) => start < p.1 <= s@.len() && parse_field_then(s@.skip(start as int), delim)
                == Some((p.0@, s@.skip(p.1 as int))),
            None => parse_field_then(s@.skip(start as int), delim) is None,
        },
{
    let n = s.unicode_len();
    let field;
    proof {
        assert(s@.skip(start as int).len() == n - start);
        if start < n {
            assert(s@.skip(start as int)[0] == s@[start as int]);
            assert(s@.skip(start as int).skip(1) =~= s@.skip(start as int + 1));
        }
    }
    if start < n && s.get_char(start) == '"' {
        field = parse_quoted_at(s, start + 1);
    } else {
        field = parse_unquoted_at(s, start);
    }
    match field {
        Some((v, pos)) => {
            proof {
                assert(s@.skip(pos as int).len() == n - pos);
                if pos < n {
                    assert(s@.skip(pos as int)[0] == s@[pos as int]);
                    assert(s@.skip(pos as int).skip(1) =~= s@.skip(pos as int + 1));
                }
            }
            if pos < n && s.get_char(pos) == delim {
                Some((v, pos + 1))
            } else {
                None
            }
        },
        None => None,
    }
}

/// Reads one row from the given position as a record; gives back the
/// record and the position after the row's line feed.
fn parse_record_at(s: &str, start: usize) -> (r: Option<(SelectorRecord, usize)>)
    requires
        start <= s@.len(),
    ensures
        match r {
            Some(p) => start < p.1 <= s@.len() && parse_record(s@.skip(start as int)) == Some(
                (p.0@, s@.skip(p.1 as int)),
            ),
            None => parse_record(s@.skip(start as int)) is None,
        },
{
    let (f1, p1) = match parse_field_then_at(s, start, ',') {
        Some(p) => p,
        None => {
            return None;
        },
    };
    let (f2, p2) = match parse_field_then_at(s, p1, ',') {
        Some(p) => p,
        None => {
            return None;
        },
    };
    let (f3, p3) = match parse_field_then_at(s, p2, ',') {
        Some(p) => p,
        None => {
            return None;
        },
    };
    let (f4, p4) = match parse_field_then_at(s, p3, ',') {
        Some(p) => p,
        None => {
            return None;
        },
    };
    let (f5, p5) = match parse_field_then_at(s, p4, '\n') {
        Some(p) => p,
        None => {
            return None;
        },
    };
    let timestamp = match parse_u64_field(f1.as_str()) {
        Some(v) => v,
        None => {
            return None;
        },
    };
    let rec = SelectorRecord { timestamp, url: f2, selector: f3, content: f4, host: f5 };
    Some((rec, p5))
}

/// Reads rows from the given position until the text ends.
fn parse_records_at(s: &str, start: usize) -> (r: Option<Vec<SelectorRecord>>)
    requires
        start <= s@.len(),
    ensures
        match r {
            Some(v) => parse_records(s@.skip(start as int)) == Some(v.deep_view()),
            None => parse_records(s@.skip(start as int)) is None,
        },
{
    let n = s.unicode_len();
    let mut out: Vec<SelectorRecord> = Vec::new();
    let mut p = start;
    proof {
        assert(out.deep_view() =~= Seq::<SelectorRecordV>::empty());
    }
    loop
        invariant
            start <= p <= n,
            n == s@.len(),
            (match parse_records(s@.skip(p as int)) {
                Some(rs) => parse_records(s@.skip(start as int)) == Some(out.deep_view() + rs),
                None => parse_records(s@.skip(start as int)) is None,
            }),
        decreases n - p,
    {
        if p >= n {
            proof {
                assert(s@.skip(p as int).len() == 0);
                assert(out.deep_view() + Seq::<SelectorRecordV>::empty() =~= out.deep_view());
            }
            return Some(out);
        }
        proof {
            assert(s@.skip(p as int).len() == n - p);
        }
        match parse_record_at(s, p) {
            None => {
                return None;
            },
            Some((rec, np)) => {
                proof {
                    assert(s@.skip(np as int).len() == n - np);
                    assert(s@.skip(np as int).len() < s@.skip(p as int).len());
                    match parse_records(s@.skip(np as int)) {
                        Some(rs) => {
                            assert(out.deep_view().push(rec@) + rs =~= out.deep_view() + (seq![
                                rec@,
                            ] + rs));
                        },
                        None => {},
                    }
                }
                out.push(rec);
                p = np;
            },
        }
    }
}

/// Reads a flat file's text back into records: the fixed header row,
/// then one record per row. A malformed text is a persistence failure.
pub fn records_from_csv(content: &str) -> (r: Result<Vec<SelectorRecord>, ScrapeError>)
    ensures
        match r {
            Ok(v) => parse_batch(content@) == Some(v.deep_view()),
            Err(e) => e == ScrapeError::PersistenceFailure && parse_batch(content@) is None,
        },
{
    let header = "Timestamp,Url,Selector,Content,Host\n";
    let hn = header.unicode_len();
    let n = content.unicode_len();
    if n < hn {
        return Err(ScrapeError::PersistenceFailure);
    }
    let mut i: usize = 0;
    while i < hn
        invariant
            0 <= i <= hn,
            hn == header@.len(),
            n == content@.len(),
            n >= hn,
            header@ == "Timestamp,Url,Selector,Content,Host\n"@,
            forall|j: int| 0 <= j < i ==> content@[j] == header@[j],
        decreases hn - i,
    {
        if content.get_char(i) != header.get_char(i) {
            proof {
                assert(content@.take(hn as int)[i as int] == content@[i as int]);
                assert(content@.take(hn as int) != "Timestamp,Url,Selector,Content,Host\n"@);
            }
            return Err(ScrapeError::PersistenceFailure);
        }
        i = i + 1;
    }
    proof {
        assert(content@.take(hn as int) =~= "Timestamp,Url,Selector,Content,Host\n"@);
    }
    match parse_records_at(content, hn) {
        Some(v) => Ok(v),
        None => Err(ScrapeError::PersistenceFailure),
    }
}

/// Serializes a batch as the flat file's text: header row first, then one
/// row per record, in batch order.
pub fn records_to_csv(records: &Vec<SelectorRecord>) -> (r: String)
    ensures
        r@ == enc_batch(records.deep_view()),
{
    let mut out = String::new();
    out.append("Timestamp,Url,Selector,Content,Host\n");
    proof {
        assert(Seq::<char>::empty() + "Timestamp,Url,Selector,Content,Host\n"@
            =~= "Timestamp,Url,Selector,Content,Host\n"@);
        assert(records.deep_view().take(0) =~= Seq::<SelectorRecordV>::empty());
        assert(out@ + enc_records(records.deep_view().take(0)) =~= out@);
    }
    let ghost header = out@;
    let n = records.len();
    let mut i: usize = 0;
    while i < n
        invariant
            0 <= i <= n,
            n == records@.len(),
            records.deep_view().len() == n,
            out@ == header + enc_records(records.deep_view().take(i as int)),
        decreases n - i,
    {
        proof {
            assert(records.deep_view().take(i as int + 1) =~= records.deep_view().take(i as int)
                + seq![records.deep_view()[i as int]]);
            lemma_enc_records_append(
                records.deep_view().take(i as int),
                seq![records.deep_view()[i as int]],
            );
            lemma_enc_records_single(records.deep_view()[i as int]);
            assert(records.deep_view()[i as int] == records@[i as int]@);
        }
        append_record(&mut out, &records[i]);
        proof {
            assert(header + enc_records(records.deep_view().take(i as int + 1)) =~= (header
                + enc_records(records.deep_view().take(i as int))) + enc_record(
                records.deep_view()[i as int],
            ));
        }
        i = i + 1;
    }
    proof {
        assert(records.deep_view().take(n as int) =~= records.deep_view());
    }
    out
}

} // verus!
