use vstd::prelude::*;

use crate::errors::ParseError;

verus! {

// The A50 payload is one ASCII sentence: the identifier "wrz", then
// comma-separated fields (three velocities, a validity character, altitude,
// figure of merit, nine semicolon-separated covariance entries, two unsigned
// times, a sub-second time and a status), closed by '*' and two hex digits:
// the XOR of every byte from the 'w' of the identifier up to the '*'.
// Decimal fields stay as validated byte strings, so this decoder is exact;
// converting them to floating point is left to the consumer.

/// One decoded A50 sentence.  `velocity`, `altitude`, `figure_of_merit`,
/// `covariance` and `time` hold the validated ASCII number fields.
#[derive(Debug, Clone, PartialEq)]
pub struct DVLMessage {
    pub velocity: Vec<Vec<u8>>,
    pub valid: u8,
    pub altitude: Vec<u8>,
    pub figure_of_merit: Vec<u8>,
    pub covariance: Vec<Vec<u8>>,
    pub time_of_validity: u64,
    pub time_of_transmission: u64,
    pub time: Vec<u8>,
    pub status: i32,
}

pub open spec fn is_digit(b: u8) -> bool {
    48 <= b <= 57
}

/// Every byte is a decimal digit, and there is at least one.
pub open spec fn is_digits(f: Seq<u8>) -> bool {
    f.len() > 0 && forall|i: int| 0 <= i < f.len() ==> is_digit(#[trigger] f[i])
}

/// The value of a string of decimal digits.
pub open spec fn dec_val(f: Seq<u8>) -> int
    decreases f.len(),
{
    if f.len() == 0 {
        0
    } else {
        dec_val(f.drop_last()) * 10 + (f.last() - 48)
    }
}

/// A signed decimal integer: an optional minus sign, then digits.
pub open spec fn is_signed_int(f: Seq<u8>) -> bool {
    if f.len() > 0 && f[0] == 45 {
        is_digits(f.drop_first())
    } else {
        is_digits(f)
    }
}

/// The value of a signed decimal integer field.
pub open spec fn int_val(f: Seq<u8>) -> int {
    if f.len() > 0 && f[0] == 45 {
        -dec_val(f.drop_first())
    } else {
        dec_val(f)
    }
}

/// The value of one hex digit, or -1 when the byte is no hex digit.
pub open spec fn hex_val(b: u8) -> int {
    if 48 <= b <= 57 {
        b - 48
    } else if 97 <= b <= 102 {
        b - 87
    } else if 65 <= b <= 70 {
        b - 55
    } else {
        -1
    }
}

/// The XOR of all bytes of a sequence.
pub open spec fn xor_bytes(f: Seq<u8>) -> u8
    decreases f.len(),
{
    if f.len() == 0 {
        0
    } else {
        xor_bytes(f.drop_last()) ^ f.last()
    }
}

/// The position of the first "wrz" whose three bytes lie at or after `i`,
/// or -1 when there is none.
pub open spec fn first_wrz_from(s: Seq<u8>, i: int) -> int
    decreases s.len() - i,
{
    if i < 0 || i + 3 > s.len() {
        -1
    } else if s[i] == 0x77 && s[i + 1] == 0x72 && s[i + 2] == 0x7A {
        i
    } else {
        first_wrz_from(s, i + 1)
    }
}

/// The position of the first occurrence of `b` at or after `i`, or -1.
pub open spec fn first_byte_from(s: Seq<u8>, i: int, b: u8) -> int
    decreases s.len() - i,
{
    if i < 0 || i >= s.len() {
        -1
    } else if s[i] == b {
        i
    } else {
        first_byte_from(s, i + 1, b)
    }
}

/// The fields a separator byte cuts a sequence into: a separator closes the
/// field before it and opens a fresh one, any other byte extends the last
/// field.  Joining the fields with the separator gives the sequence back,
/// and no field contains it.
pub open spec fn split_bytes(s: Seq<u8>, sep: u8) -> Seq<Seq<u8>>
    decreases s.len(),
{
    if s.len() == 0 {
        seq![Seq::<u8>::empty()]
    } else if s.last() == sep {
        split_bytes(s.drop_last(), sep) + seq![Seq::<u8>::empty()]
    } else {
        let rest = split_bytes(s.drop_last(), sep);
        rest.update(rest.len() - 1, rest.last() + seq![s.last()])
    }
}

proof fn lemma_split_len_pos(s: Seq<u8>, sep: u8)
    ensures
        split_bytes(s, sep).len() >= 1,
    decreases s.len(),
{
    if s.len() > 0 {
        lemma_split_len_pos(s.drop_last(), sep);
    }
}

// Number-grammar scanner for the decimal fields the sensor emits: an
// optional sign, digits with an optional fractional part (or a leading dot
// with fraction digits), and an optional exponent.  State -1 is the sink.
pub open spec fn float_dfa_step(state: int, c: u8) -> int {
    if state == 0 {
        if c == 43 || c == 45 {
            1
        } else if is_digit(c) {
            2
        } else if c == 46 {
            3
        } else {
            -1
        }
    } else if state == 1 {
        if is_digit(c) {
            2
        } else if c == 46 {
            3
        } else {
            -1
        }
    } else if state == 2 {
        if is_digit(c) {
            2
        } else if c == 46 {
            4
        } else if c == 101 || c == 69 {
            5
        } else {
            -1
        }
    } else if state == 3 {
        if is_digit(c) {
            4
        } else {
            -1
        }
    } else if state == 4 {
        if is_digit(c) {
            4
        } else if c == 101 || c == 69 {
            5
        } else {
            -1
        }
    } else if state == 5 {
        if c == 43 || c == 45 {
            6
        } else if is_digit(c) {
            7
        } else {
            -1
        }
    } else if state == 6 {
        if is_digit(c) {
            7
        } else {
            -1
        }
    } else if state == 7 {
        if is_digit(c) {
            7
        } else {
            -1
        }
    } else {
        -1
    }
}

pub open spec fn float_scan(f: Seq<u8>, i: int, state: int) -> int
    decreases f.len() - i,
{
    if i < 0 || i >= f.len() {
        state
    } else {
        float_scan(f, i + 1, float_dfa_step(state, f[i]))
    }
}

/// The field is a well-formed decimal number of the sensor's grammar.
pub open spec fn is_float_field(f: Seq<u8>) -> bool {
    let fin = float_scan(f, 0, 0);
    fin == 2 || fin == 4 || fin == 7
}

/// Checks a field against the decimal-number grammar.
pub fn check_float_field(f: &Vec<u8>) -> (r: bool)
    ensures
        r == is_float_field(f@),
{
    let mut state: i32 = 0;
    let mut i: usize = 0;
    while i < f.len()
        invariant
            0 <= i <= f@.len(),
            -1 <= state <= 7,
            float_scan(f@, 0, 0) == float_scan(f@, i as int, state as int),
        decreases f@.len() - i,
    {
        let c = f[i];
        let next: i32 = if state == 0 {
            if c == 43 || c == 45 {
                1
            } else if 48 <= c && c <= 57 {
                2
            } else if c == 46 {
                3
            } else {
                -1
            }
        } else if state == 1 {
            if 48 <= c && c <= 57 {
                2
            } else if c == 46 {
                3
            } else {
                -1
            }
        } else if state == 2 {
            if 48 <= c && c <= 57 {
                2
            } else if c == 46 {
                4
            } else if c == 101 || c == 69 {
                5
            } else {
                -1
            }
        } else if state == 3 {
            if 48 <= c && c <= 57 {
                4
            } else {
                -1
            }
        } else if state == 4 {
            if 48 <= c && c <= 57 {
                4
            } else if c == 101 || c == 69 {
                5
            } else {
                -1
            }
        } else if state == 5 {
            if c == 43 || c == 45 {
                6
            } else if 48 <= c && c <= 57 {
                7
            } else {
                -1
            }
        } else if state == 6 {
            if 48 <= c && c <= 57 {
                7
            } else {
                -1
            }
        } else if state == 7 {
            if 48 <= c && c <= 57 {
                7
            } else {
                -1
            }
        } else {
            -1
        };
        proof {
            assert(next == float_dfa_step(state as int, f@[i as int]));
        }
        state = next;
        i = i + 1;
    }
    state == 2 || state == 4 || state == 7
}

proof fn lemma_dec_val_nonneg(f: Seq<u8>)
    requires
        forall|i: int| 0 <= i < f.len() ==> is_digit(#[trigger] f[i]),
    ensures
        dec_val(f) >= 0,
    decreases f.len(),
{
    if f.len() > 0 {
        lemma_dec_val_nonneg(f.drop_last());
    }
}

/// The value of a digit string never falls below the value of any prefix.
proof fn lemma_dec_val_prefix(f: Seq<u8>, j: int)
    requires
        is_digits(f),
        0 <= j <= f.len(),
    ensures
        dec_val(f) >= dec_val(f.take(j)),
    decreases f.len() - j,
{
    if j == f.len() {
        assert(f.take(j) =~= f);
    } else {
        lemma_dec_val_prefix(f, j + 1);
        assert(f.take(j + 1).drop_last() =~= f.take(j));
        lemma_dec_val_nonneg(f.take(j));
    }
}

/// Parses an unsigned decimal field; accepted exactly when the field is all
/// digits and its value fits a 64-bit unsigned integer.
pub fn parse_u64_dec(f: &Vec<u8>) -> (r: Result<u64, ParseError>)
    ensures
        r is Ok <==> is_digits(f@) && dec_val(f@) <= u64::MAX,
        (r matches Ok(v) ==> v == dec_val(f@)),
        r is Err ==> r == Err::<u64, ParseError>(ParseError::TextFieldParse),
{
    if f.len() == 0 {
        return Err(ParseError::TextFieldParse);
    }
    let mut acc: u64 = 0;
    let mut i: usize = 0;
    while i < f.len()
        invariant
            0 <= i <= f@.len(),
            forall|j: int| 0 <= j < i ==> is_digit(#[trigger] f@[j]),
            acc == dec_val(f@.take(i as int)),
        decreases f@.len() - i,
    {
        let c = f[i];
        if !(48 <= c && c <= 57) {
            return Err(ParseError::TextFieldParse);
        }
        let d = (c - 48) as u64;
        if acc > (u64::MAX - d) / 10 {
            proof {
                assert(f@.take(i + 1).drop_last() =~= f@.take(i as int));
                assert(dec_val(f@.take(i + 1)) == acc * 10 + d);
                assert(acc * 10 + d > u64::MAX) by {
                    assert(acc >= (u64::MAX - d) / 10 + 1);
                    assert(((u64::MAX - d) / 10 + 1) * 10 + d > u64::MAX) by (nonlinear_arith)
                        requires
                            0 <= d <= 9,
                    ;
                    assert(acc * 10 >= ((u64::MAX - d) / 10 + 1) * 10) by (nonlinear_arith)
                        requires
                            acc >= (u64::MAX - d) / 10 + 1,
                    ;
                }
                if is_digits(f@) {
                    lemma_dec_val_prefix(f@, i + 1);
                }
            }
            return Err(ParseError::TextFieldParse);
        }
        proof {
            assert(f@.take(i + 1).drop_last() =~= f@.take(i as int));
            assert(acc * 10 + d <= u64::MAX) by {
                assert(acc <= (u64::MAX - d) / 10);
                assert(((u64::MAX - d) / 10) * 10 + d <= u64::MAX) by (nonlinear_arith)
                    requires
                        0 <= d <= 9,
                ;
                assert(acc * 10 <= ((u64::MAX - d) / 10) * 10) by (nonlinear_arith)
                    requires
                        0 <= acc <= (u64::MAX - d) / 10,
                ;
            }
        }
        acc = acc * 10 + d;
        i = i + 1;
    }
    proof {
        assert(f@.take(f@.len() as int) =~= f@);
    }
    Ok(acc)
}

/// Parses a signed decimal field; accepted exactly when the field is an
/// optional minus sign before digits and the value fits a 32-bit signed
/// integer.
pub fn parse_i32_dec(f: &Vec<u8>) -> (r: Result<i32, ParseError>)
    ensures
        r is Ok <==> is_signed_int(f@) && -0x8000_0000 <= int_val(f@) < 0x8000_0000,
        (r matches Ok(v) ==> v == int_val(f@)),
        r is Err ==> r == Err::<i32, ParseError>(ParseError::TextFieldParse),
{
    if f.len() > 0 && f[0] == 45 {
        let mut digits: Vec<u8> = Vec::new();
        let mut i: usize = 1;
        while i < f.len()
            invariant
                1 <= i <= f@.len(),
                digits@ =~= f@.drop_first().take(i - 1),
            decreases f@.len() - i,
        {
            digits.push(f[i]);
            i = i + 1;
        }
        proof {
            assert(digits@ =~= f@.drop_first());
        }
        let v = parse_u64_dec(&digits)?;
        if v > 0x8000_0000u64 {
            return Err(ParseError::TextFieldParse);
        }
        if v == 0x8000_0000u64 {
            return Ok(i32::MIN);
        }
        Ok(-(v as i32))
    } else {
        let v = parse_u64_dec(f)?;
        if v >= 0x8000_0000u64 {
            return Err(ParseError::TextFieldParse);
        }
        Ok(v as i32)
    }
}

fn find_wrz(data: &[u8]) -> (r: Option<usize>)
    ensures
        first_wrz_from(data@, 0) >= 0 <==> r is Some,
        (r matches Some(w) ==> w == first_wrz_from(data@, 0) && w + 3 <= data@.len()),
{
    let n = data.len();
    let mut i: usize = 0;
    loop
        invariant
            0 <= i,
            i <= n == data@.len(),
            first_wrz_from(data@, 0) == first_wrz_from(data@, i as int),
        ensures
            (first_wrz_from(data@, 0) >= 0 <==> i + 3 <= n) && (i + 3 <= n ==> i
                == first_wrz_from(data@, 0)),
        decreases n - i,
    {
        if n - i < 3 {
            proof {
                assert(first_wrz_from(data@, i as int) == -1);
            }
            break;
        }
        if data[i] == 0x77 && data[i + 1] == 0x72 && data[i + 2] == 0x7A {
            proof {
                assert(first_wrz_from(data@, i as int) == i);
            }
            break;
        }
        i = i + 1;
    }
    if n - i >= 3 {
        Some(i)
    } else {
        None
    }
}

fn find_byte(data: &[u8], from: usize, b: u8) -> (r: Option<usize>)
    requires
        from <= data@.len(),
    ensures
        first_byte_from(data@, from as int, b) >= 0 <==> r is Some,
        (r matches Some(w) ==> w == first_byte_from(data@, from as int, b) && from <= w
            < data@.len()),
{
    let n = data.len();
    let mut i: usize = from;
    loop
        invariant
            from <= i,
            i <= n == data@.len(),
            first_byte_from(data@, from as int, b) == first_byte_from(data@, i as int, b),
        ensures
            (first_byte_from(data@, from as int, b) >= 0 <==> i < n) && (i < n ==> i
                == first_byte_from(data@, from as int, b)),
        decreases n - i,
    {
        if i >= n {
            break;
        }
        if data[i] == b {
            break;
        }
        i = i + 1;
    }
    if i < n {
        Some(i)
    } else {
        None
    }
}

fn xor_range(data: &[u8], from: usize, to: usize) -> (r: u8)
    requires
        from <= to <= data@.len(),
    ensures
        r == xor_bytes(data@.subrange(from as int, to as int)),
{
    let mut acc: u8 = 0;
    let mut i: usize = from;
    while i < to
        invariant
            from <= i <= to <= data@.len(),
            acc == xor_bytes(data@.subrange(from as int, i as int)),
        decreases to - i,
    {
        proof {
            assert(data@.subrange(from as int, i + 1).drop_last() =~= data@.subrange(
                from as int,
                i as int,
            ));
        }
        acc = acc ^ data[i];
        i = i + 1;
    }
    acc
}

fn hex_digit(b: u8) -> (r: Option<u8>)
    ensures
        hex_val(b) >= 0 <==> r is Some,
        (r matches Some(v) ==> v == hex_val(b)),
{
    if 48 <= b && b <= 57 {
        Some(b - 48)
    } else if 97 <= b && b <= 102 {
        Some(b - 87)
    } else if 65 <= b && b <= 70 {
        Some(b - 55)
    } else {
        None
    }
}

fn split_on(data: &Vec<u8>, sep: u8) -> (r: Vec<Vec<u8>>)
    ensures
        r@.map_values(|v: Vec<u8>| v@) == split_bytes(data@, sep),
        r@.len() >= 1,
{
    let mut fields: Vec<Vec<u8>> = Vec::new();
    let mut cur: Vec<u8> = Vec::new();
    let mut i: usize = 0;
    while i < data.len()
        invariant
            0 <= i <= data@.len(),
            fields@.map_values(|v: Vec<u8>| v@) + seq![cur@] =~~= split_bytes(
                data@.take(i as int),
                sep,
            ),
        decreases data@.len() - i,
    {
        proof {
            lemma_split_len_pos(data@.take(i as int), sep);
            assert(data@.take(i + 1).drop_last() =~= data@.take(i as int));
            assert(data@.take(i + 1).last() == data@[i as int]);
        }
        if data[i] == sep {
            fields.push(cur);
            cur = Vec::new();
        } else {
            cur.push(data[i]);
        }
        i = i + 1;
    }
    proof {
        assert(data@.take(data@.len() as int) =~= data@);
    }
    fields.push(cur);
    proof {
        assert(fields@.map_values(|v: Vec<u8>| v@) =~~= split_bytes(data@, sep));
    }
    fields
}

/// All number fields of a sentence are well-formed: three velocities, a
/// validity character, altitude, figure of merit, nine covariance entries,
/// two unsigned 64-bit times, the sub-second time and the signed status.
pub open spec fn a50_fields_ok(fields: Seq<Seq<u8>>, cov: Seq<Seq<u8>>) -> bool {
    &&& is_float_field(fields[1])
    &&& is_float_field(fields[2])
    &&& is_float_field(fields[3])
    &&& fields[4].len() >= 1
    &&& is_float_field(fields[5])
    &&& is_float_field(fields[6])
    &&& cov.len() >= 9
    &&& (forall|i: int| 0 <= i < 9 ==> is_float_field(#[trigger] cov[i]))
    &&& is_digits(fields[8]) && dec_val(fields[8]) <= u64::MAX
    &&& is_digits(fields[9]) && dec_val(fields[9]) <= u64::MAX
    &&& is_float_field(fields[10])
    &&& is_signed_int(fields[11]) && -0x8000_0000 <= int_val(fields[11]) < 0x8000_0000
}

/// `msg` holds exactly the fields of the sentence.
pub open spec fn a50_decoded(msg: DVLMessage, fields: Seq<Seq<u8>>, cov: Seq<Seq<u8>>) -> bool {
    &&& msg.velocity@.len() == 3
    &&& msg.velocity@[0]@ == fields[1]
    &&& msg.velocity@[1]@ == fields[2]
    &&& msg.velocity@[2]@ == fields[3]
    &&& msg.valid == fields[4][0]
    &&& msg.altitude@ == fields[5]
    &&& msg.figure_of_merit@ == fields[6]
    &&& msg.covariance@.len() == 9
    &&& (forall|i: int| 0 <= i < 9 ==> #[trigger] msg.covariance@[i]@ == cov[i])
    &&& msg.time_of_validity == dec_val(fields[8])
    &&& msg.time_of_transmission == dec_val(fields[9])
    &&& msg.time@ == fields[10]
    &&& msg.status == int_val(fields[11])
}

/// What parsing an A50 payload must return.  The sentence starts at the
/// first "wrz"; a payload without one is an unknown record.  The sentence
/// must close with '*' and two hex digits matching the XOR of the bytes from
/// the 'w' up to the '*'; then the comma-separated fields (the covariance
/// split on semicolons) must all be well-formed, and every field of the
/// message is pinned to the sentence.
pub open spec fn a50_parse_post(r: Result<DVLMessage, ParseError>, s: Seq<u8>) -> bool {
    let w = first_wrz_from(s, 0);
    if w < 0 {
        r == Err::<DVLMessage, ParseError>(ParseError::UnknownRecord)
    } else {
        let star = first_byte_from(s, w, 42);
        if star < 0 || star + 3 > s.len() {
            r == Err::<DVLMessage, ParseError>(ParseError::TextChecksum)
        } else if hex_val(s[star + 1]) < 0 || hex_val(s[star + 2]) < 0 {
            r == Err::<DVLMessage, ParseError>(ParseError::TextChecksum)
        } else if xor_bytes(s.subrange(w, star)) != 16 * hex_val(s[star + 1]) + hex_val(
            s[star + 2],
        ) {
            r == Err::<DVLMessage, ParseError>(ParseError::TextChecksum)
        } else {
            let fields = split_bytes(s.subrange(w, star), 44);
            let cov = split_bytes(fields[7], 59);
            if fields.len() < 12 {
                r == Err::<DVLMessage, ParseError>(ParseError::TextFieldParse)
            } else if !a50_fields_ok(fields, cov) {
                r == Err::<DVLMessage, ParseError>(ParseError::TextFieldParse)
            } else {
                r matches Ok(msg) && a50_decoded(msg, fields, cov)
            }
        }
    }
}

/// Parses one A50 ASCII sentence: locates the "wrz" identifier, verifies the
/// trailing NMEA-style XOR checksum, splits the fields and validates every
/// numeric one.
pub fn parse_a50_data(data: &[u8]) -> (r: Result<DVLMessage, ParseError>)
    ensures
        a50_parse_post(r, data@),
{
    let n = data.len();
    let w = match find_wrz(data) {
        Some(w) => w,
        None => {
            return Err(ParseError::UnknownRecord);
        },
    };
    let star = match find_byte(data, w, 42) {
        Some(p) => p,
        None => {
            return Err(ParseError::TextChecksum);
        },
    };
    if n - star < 3 {
        return Err(ParseError::TextChecksum);
    }
    let h1 = match hex_digit(data[star + 1]) {
        Some(v) => v,
        None => {
            return Err(ParseError::TextChecksum);
        },
    };
    let h2 = match hex_digit(data[star + 2]) {
        Some(v) => v,
        None => {
            return Err(ParseError::TextChecksum);
        },
    };
    let received = 16 * h1 + h2;
    let computed = xor_range(data, w, star);
    if computed != received {
        return Err(ParseError::TextChecksum);
    }
    let mut sentence: Vec<u8> = Vec::new();
    let mut i: usize = w;
    while i < star
        invariant
            w <= i <= star <= data@.len(),
            sentence@ =~= data@.subrange(w as int, i as int),
        decreases star - i,
    {
        sentence.push(data[i]);
        i = i + 1;
    }
    proof {
        assert(sentence@ =~= data@.subrange(w as int, star as int));
    }
    let fields = split_on(&sentence, 44);
    if fields.len() < 12 {
        return Err(ParseError::TextFieldParse);
    }
    let ghost gfields = split_bytes(data@.subrange(w as int, star as int), 44);
    proof {
        assert(fields@.map_values(|v: Vec<u8>| v@) == gfields);
        assert forall|k: int| 0 <= k < fields@.len() implies #[trigger] fields@[k]@
            == gfields[k] by {
            assert(fields@.map_values(|v: Vec<u8>| v@)[k] == fields@[k]@);
        }
    }
    let cov = split_on(&fields[7], 59);
    let ghost gcov = split_bytes(gfields[7], 59);
    proof {
        assert(cov@.map_values(|v: Vec<u8>| v@) == gcov);
        assert forall|k: int| 0 <= k < cov@.len() implies #[trigger] cov@[k]@ == gcov[k] by {
            assert(cov@.map_values(|v: Vec<u8>| v@)[k] == cov@[k]@);
        }
    }
    if cov.len() < 9 {
        return Err(ParseError::TextFieldParse);
    }
    if !(check_float_field(&fields[1]) && check_float_field(&fields[2]) && check_float_field(
        &fields[3],
    )) {
        return Err(ParseError::TextFieldParse);
    }
    if fields[4].len() == 0 {
        return Err(ParseError::TextFieldParse);
    }
    if !(check_float_field(&fields[5]) && check_float_field(&fields[6]) && check_float_field(
        &fields[10],
    )) {
        return Err(ParseError::TextFieldParse);
    }
    let mut cov_ok = true;
    let mut ci: usize = 0;
    while ci < 9
        invariant
            0 <= ci <= 9,
            cov@.len() >= 9,
            cov@.map_values(|v: Vec<u8>| v@) == gcov,
            cov_ok <==> (forall|j: int| 0 <= j < ci ==> is_float_field(#[trigger] gcov[j])),
        decreases 9 - ci,
    {
        proof {
            assert(cov@.map_values(|v: Vec<u8>| v@)[ci as int] == cov@[ci as int]@);
        }
        let entry_ok = check_float_field(&cov[ci]);
        cov_ok = cov_ok && entry_ok;
        ci = ci + 1;
    }
    if !cov_ok {
        return Err(ParseError::TextFieldParse);
    }
    let time_of_validity = parse_u64_dec(&fields[8])?;
    let time_of_transmission = parse_u64_dec(&fields[9])?;
    let status = parse_i32_dec(&fields[11])?;
    let velocity: Vec<Vec<u8>> = vec![fields[1].clone(), fields[2].clone(), fields[3].clone()];
    let mut covariance: Vec<Vec<u8>> = Vec::new();
    let mut cj: usize = 0;
    while cj < 9
        invariant
            0 <= cj <= 9,
            cov@.len() >= 9,
            cov@.map_values(|v: Vec<u8>| v@) == gcov,
            covariance@.len() == cj,
            forall|j: int| 0 <= j < cj ==> #[trigger] covariance@[j]@ == gcov[j],
        decreases 9 - cj,
    {
        covariance.push(cov[cj].clone());
        proof {
            assert(cov@[cj as int]@ == gcov[cj as int]);
        }
        cj = cj + 1;
    }
    let msg = DVLMessage {
        velocity,
        valid: fields[4][0],
        altitude: fields[5].clone(),
        figure_of_merit: fields[6].clone(),
        covariance,
        time_of_validity,
        time_of_transmission,
        time: fields[10].clone(),
        status,
    };
    Ok(msg)
}

} // verus!
