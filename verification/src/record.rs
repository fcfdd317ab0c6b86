//! The record type passed through the pipeline, and the line parser.
//!
//! A wire line is ASCII text: seven comma-separated decimal integers,
//! `ts,x_filt,y_filt,z_filt,x,y,z`. Parsing is specified field by field:
//! which byte sequences denote a number, what value they denote, and which
//! error (with its column) every other input produces.

use vstd::prelude::*;

verus! {

/// Why a field of a line could not be parsed.
#[derive(Debug, Clone, Copy, PartialEq, Eq, Structural)]
pub enum ParseErrorKind {
    InvalidNumber,
    InvalidUTF8,
    MissingField,
}

/// A parse failure, with the zero-based column (field index) it occurred in.
#[derive(Debug, Clone, Copy, PartialEq, Eq, Structural)]
pub struct ParseError {
    pub column: usize,
    pub kind: ParseErrorKind,
}

/// One tri-axial sample.
///
/// `timestamp_us` is the unwrapped monotonic time in microseconds since the
/// session started; `timestamp_wall_us` is wall-clock microseconds stamped by
/// the source when the sample was parsed. The trigger detector consumes the
/// device-side pre-filtered channels `x_filt`, `y_filt`, `z_filt`, not the
/// raw channels.
#[derive(Debug, Clone, Copy, PartialEq, Eq, Structural)]
pub struct Record {
    pub timestamp_us: u64,
    pub timestamp_wall_us: u64,
    pub x: i32,
    pub y: i32,
    pub z: i32,
    pub x_filt: i32,
    pub y_filt: i32,
    pub z_filt: i32,
}

/// ASCII decimal digit.
pub open spec fn is_digit(b: u8) -> bool {
    48 <= b <= 57
}

pub open spec fn all_digits(s: Seq<u8>) -> bool {
    forall|i: int| 0 <= i < s.len() ==> is_digit(#[trigger] s[i])
}

/// Value of a digit string, most significant digit first.
pub open spec fn digits_value(s: Seq<u8>) -> int
    decreases s.len(),
{
    if s.len() == 0 {
        0
    } else {
        digits_value(s.take(s.len() - 1)) * 10 + (s[s.len() - 1] - 48)
    }
}

/// The field with an optional leading `+` removed.
pub open spec fn strip_plus(s: Seq<u8>) -> Seq<u8> {
    if s.len() > 0 && s[0] == 43 {
        s.drop_first()
    } else {
        s
    }
}

/// Is the field a minus sign followed by digits?
pub open spec fn is_negative_field(s: Seq<u8>) -> bool {
    s.len() > 0 && s[0] == 45
}

/// The field with an optional leading `+` or `-` removed.
pub open spec fn strip_sign(s: Seq<u8>) -> Seq<u8> {
    if s.len() > 0 && (s[0] == 43 || s[0] == 45) {
        s.drop_first()
    } else {
        s
    }
}

/// The byte sequences that denote a `u64`: an optional `+`, then one or more
/// digits, denoting a value within range.
pub open spec fn is_valid_u64(s: Seq<u8>) -> bool {
    strip_plus(s).len() > 0 && all_digits(strip_plus(s)) && digits_value(strip_plus(s))
        <= u64::MAX
}

pub open spec fn spec_u64_value(s: Seq<u8>) -> u64 {
    digits_value(strip_plus(s)) as u64
}

/// The byte sequences that denote a `u32`.
pub open spec fn is_valid_u32(s: Seq<u8>) -> bool {
    strip_plus(s).len() > 0 && all_digits(strip_plus(s)) && digits_value(strip_plus(s))
        <= u32::MAX
}

pub open spec fn spec_u32_value(s: Seq<u8>) -> u32 {
    digits_value(strip_plus(s)) as u32
}

/// The byte sequences that denote an `i32`: an optional sign, then one or
/// more digits, denoting a value within range.
pub open spec fn is_valid_i32(s: Seq<u8>) -> bool {
    strip_sign(s).len() > 0 && all_digits(strip_sign(s)) && (if is_negative_field(s) {
        digits_value(strip_sign(s)) <= 0x8000_0000
    } else {
        digits_value(strip_sign(s)) <= 0x7fff_ffff
    })
}

pub open spec fn spec_i32_value(s: Seq<u8>) -> i32 {
    if is_negative_field(s) {
        (-digits_value(strip_sign(s))) as i32
    } else {
        digits_value(strip_sign(s)) as i32
    }
}

/// The comma-separated fields of a line. A line with no comma is one field;
/// every comma separates two (possibly empty) fields.
pub open spec fn spec_fields(s: Seq<u8>) -> Seq<Seq<u8>>
    decreases s.len(),
{
    if s.len() == 0 {
        seq![Seq::<u8>::empty()]
    } else if s[0] == 44 {
        seq![Seq::<u8>::empty()] + spec_fields(s.drop_first())
    } else {
        let rest = spec_fields(s.drop_first());
        rest.update(0, seq![s[0]] + rest[0])
    }
}

pub proof fn lemma_spec_fields_len(s: Seq<u8>)
    ensures
        spec_fields(s).len() >= 1,
    decreases s.len(),
{
    if s.len() > 0 {
        lemma_spec_fields_len(s.drop_first());
    }
}

/// The `k`-th field of a split line, if the line has that many.
pub open spec fn spec_field_at(fields: Seq<Seq<u8>>, k: int) -> Option<Seq<u8>> {
    if 0 <= k < fields.len() {
        Some(fields[k])
    } else {
        None
    }
}

/// What parsing one field as `u64` yields: a missing field, the value, or
/// the error kind that tells invalid text from invalid bytes.
pub open spec fn spec_parse_next_u64(field: Option<Seq<u8>>, column: usize) -> Result<
    u64,
    ParseError,
> {
    match field {
        None => Err(ParseError { column, kind: ParseErrorKind::MissingField }),
        Some(f) => if is_valid_u64(f) {
            Ok(spec_u64_value(f))
        } else if vstd::utf8::valid_utf8(f) {
            Err(ParseError { column, kind: ParseErrorKind::InvalidNumber })
        } else {
            Err(ParseError { column, kind: ParseErrorKind::InvalidUTF8 })
        },
    }
}

pub open spec fn spec_parse_next_u32(field: Option<Seq<u8>>, column: usize) -> Result<
    u32,
    ParseError,
> {
    match field {
        None => Err(ParseError { column, kind: ParseErrorKind::MissingField }),
        Some(f) => if is_valid_u32(f) {
            Ok(spec_u32_value(f))
        } else if vstd::utf8::valid_utf8(f) {
            Err(ParseError { column, kind: ParseErrorKind::InvalidNumber })
        } else {
            Err(ParseError { column, kind: ParseErrorKind::InvalidUTF8 })
        },
    }
}

pub open spec fn spec_parse_next_i32(field: Option<Seq<u8>>, column: usize) -> Result<
    i32,
    ParseError,
> {
    match field {
        None => Err(ParseError { column, kind: ParseErrorKind::MissingField }),
        Some(f) => if is_valid_i32(f) {
            Ok(spec_i32_value(f))
        } else if vstd::utf8::valid_utf8(f) {
            Err(ParseError { column, kind: ParseErrorKind::InvalidNumber })
        } else {
            Err(ParseError { column, kind: ParseErrorKind::InvalidUTF8 })
        },
    }
}

/// What parsing one wire line yields: the record (with wall time zero, the
/// source stamps it), or the first field's error in column order
/// `ts,x_filt,y_filt,z_filt,x,y,z`. Extra fields past the seventh are
/// ignored.
pub open spec fn spec_from(line: Seq<u8>) -> Result<Record, ParseError> {
    let fields = spec_fields(line);
    match spec_parse_next_u64(spec_field_at(fields, 0), 0) {
        Err(e) => Err(e),
        Ok(ts) => match spec_parse_next_i32(spec_field_at(fields, 1), 1) {
            Err(e) => Err(e),
            Ok(x_filt) => match spec_parse_next_i32(spec_field_at(fields, 2), 2) {
                Err(e) => Err(e),
                Ok(y_filt) => match spec_parse_next_i32(spec_field_at(fields, 3), 3) {
                    Err(e) => Err(e),
                    Ok(z_filt) => match spec_parse_next_i32(spec_field_at(fields, 4), 4) {
                        Err(e) => Err(e),
                        Ok(x) => match spec_parse_next_i32(spec_field_at(fields, 5), 5) {
                            Err(e) => Err(e),
                            Ok(y) => match spec_parse_next_i32(spec_field_at(fields, 6), 6) {
                                Err(e) => Err(e),
                                Ok(z) => Ok(
                                    Record {
                                        timestamp_us: ts,
                                        timestamp_wall_us: 0,
                                        x,
                                        y,
                                        z,
                                        x_filt,
                                        y_filt,
                                        z_filt,
                                    },
                                ),
                            },
                        },
                    },
                },
            },
        },
    }
}

/// Relies on `str::from_utf8`: it accepts a byte sequence exactly when the
/// sequence is valid UTF-8, as `vstd::utf8::valid_utf8` spells that notion
/// out.
#[verifier::external_body]
fn check_utf8(bytes: &[u8]) -> (r: bool)
    ensures
        r == vstd::utf8::valid_utf8(bytes@),
{
    std::str::from_utf8(bytes).is_ok()
}

proof fn lemma_digits_value_nonneg(s: Seq<u8>)
    requires
        all_digits(s),
    ensures
        digits_value(s) >= 0,
    decreases s.len(),
{
    if s.len() > 0 {
        assert(all_digits(s.take(s.len() - 1)));
        lemma_digits_value_nonneg(s.take(s.len() - 1));
    }
}

proof fn lemma_digits_value_step(s: Seq<u8>, k: int)
    requires
        0 <= k < s.len(),
    ensures
        digits_value(s.take(k + 1)) == digits_value(s.take(k)) * 10 + (s[k] - 48),
{
    assert(s.take(k + 1).take(k) =~= s.take(k));
    assert(digits_value(s.take(k + 1)) == digits_value(s.take(k + 1).take(k)) * 10 + (s[k] - 48));
}

proof fn lemma_digits_value_ge_prefix(s: Seq<u8>, j: int)
    requires
        0 <= j <= s.len(),
        all_digits(s),
    ensures
        digits_value(s) >= digits_value(s.take(j)),
    decreases s.len() - j,
{
    if j == s.len() {
        assert(s.take(j) =~= s);
    } else {
        lemma_digits_value_ge_prefix(s, j + 1);
        lemma_digits_value_step(s, j);
        assert(all_digits(s.take(j)));
        lemma_digits_value_nonneg(s.take(j));
    }
}

/// Parse a bare digit string (no sign) as a `u64`, detecting overflow.
fn parse_digits_u64(s: &[u8]) -> (r: Option<u64>)
    ensures
        match r {
            Some(v) => s@.len() > 0 && all_digits(s@) && digits_value(s@) == v,
            None => s@.len() == 0 || !all_digits(s@) || digits_value(s@) > u64::MAX,
        },
{
    if s.len() == 0 {
        return None;
    }
    let mut value: u64 = 0;
    let mut k: usize = 0;
    while k < s.len()
        invariant
            0 <= k <= s@.len(),
            all_digits(s@.take(k as int)),
            value == digits_value(s@.take(k as int)),
        decreases s@.len() - k,
    {
        let b = s[k];
        if !(b >= 48 && b <= 57) {
            assert(!is_digit(s@[k as int]));
            return None;
        }
        let d = (b - 48) as u64;
        if value > (u64::MAX - d) / 10 {
            proof {
                lemma_digits_value_step(s@, k as int);
                assert(all_digits(s@.take(k as int + 1)));
                assert(digits_value(s@.take(k as int + 1)) > u64::MAX);
                if all_digits(s@) {
                    lemma_digits_value_ge_prefix(s@, k as int + 1);
                }
            }
            return None;
        }
        value = value * 10 + d;
        proof {
            lemma_digits_value_step(s@, k as int);
            assert(all_digits(s@.take(k as int + 1)));
        }
        k = k + 1;
    }
    proof {
        assert(s@.take(k as int) =~= s@);
    }
    Some(value)
}

impl Record {
    /// The all-zero record.
    pub fn default() -> (r: Record)
        ensures
            r == (Record {
                timestamp_us: 0u64,
                timestamp_wall_us: 0u64,
                x: 0i32,
                y: 0i32,
                z: 0i32,
                x_filt: 0i32,
                y_filt: 0i32,
                z_filt: 0i32,
            }),
    {
        Record {
            timestamp_us: 0,
            timestamp_wall_us: 0,
            x: 0,
            y: 0,
            z: 0,
            x_filt: 0,
            y_filt: 0,
            z_filt: 0,
        }
    }

    /// Parse one field as a `u64`, blaming `column` on failure.
    pub fn parse_next_u64(field: Option<&[u8]>, column: usize) -> (r: Result<u64, ParseError>)
        ensures
            r == spec_parse_next_u64(
                match field {
                    Some(f) => Some(f@),
                    None => None,
                },
                column,
            ),
    {
        let f = match field {
            None => {
                return Err(ParseError { column, kind: ParseErrorKind::MissingField });
            },
            Some(f) => f,
        };
        let digits: &[u8] = if f.len() > 0 && f[0] == 43 {
            &f[1..f.len()]
        } else {
            f
        };
        proof {
            assert(digits@ =~= strip_plus(f@));
        }
        match parse_digits_u64(digits) {
            Some(v) => Ok(v),
            None => if check_utf8(f) {
                Err(ParseError { column, kind: ParseErrorKind::InvalidNumber })
            } else {
                Err(ParseError { column, kind: ParseErrorKind::InvalidUTF8 })
            },
        }
    }

    /// Parse one field as a `u32`, blaming `column` on failure.
    pub fn parse_next_u32(field: Option<&[u8]>, column: usize) -> (r: Result<u32, ParseError>)
        ensures
            r == spec_parse_next_u32(
                match field {
                    Some(f) => Some(f@),
                    None => None,
                },
                column,
            ),
    {
        let f = match field {
            None => {
                return Err(ParseError { column, kind: ParseErrorKind::MissingField });
            },
            Some(f) => f,
        };
        let digits: &[u8] = if f.len() > 0 && f[0] == 43 {
            &f[1..f.len()]
        } else {
            f
        };
        proof {
            assert(digits@ =~= strip_plus(f@));
        }
        match parse_digits_u64(digits) {
            Some(v) => if v <= u32::MAX as u64 {
                Ok(v as u32)
            } else if check_utf8(f) {
                Err(ParseError { column, kind: ParseErrorKind::InvalidNumber })
            } else {
                Err(ParseError { column, kind: ParseErrorKind::InvalidUTF8 })
            },
            None => if check_utf8(f) {
                Err(ParseError { column, kind: ParseErrorKind::InvalidNumber })
            } else {
                Err(ParseError { column, kind: ParseErrorKind::InvalidUTF8 })
            },
        }
    }

    /// Parse one field as an `i32`, blaming `column` on failure.
    pub fn parse_next_i32(field: Option<&[u8]>, column: usize) -> (r: Result<i32, ParseError>)
        ensures
            r == spec_parse_next_i32(
                match field {
                    Some(f) => Some(f@),
                    None => None,
                },
                column,
            ),
    {
        let f = match field {
            None => {
                return Err(ParseError { column, kind: ParseErrorKind::MissingField });
            },
            Some(f) => f,
        };
        let negative = f.len() > 0 && f[0] == 45;
        let digits: &[u8] = if f.len() > 0 && (f[0] == 43 || f[0] == 45) {
            &f[1..f.len()]
        } else {
            f
        };
        proof {
            assert(digits@ =~= strip_sign(f@));
        }
        match parse_digits_u64(digits) {
            Some(v) => {
                if negative && v <= 0x8000_0000u64 {
                    proof {
                        lemma_digits_value_nonneg(digits@);
                    }
                    Ok((-(v as i64)) as i32)
                } else if !negative && v <= 0x7fff_ffffu64 {
                    Ok(v as i32)
                } else if check_utf8(f) {
                    Err(ParseError { column, kind: ParseErrorKind::InvalidNumber })
                } else {
                    Err(ParseError { column, kind: ParseErrorKind::InvalidUTF8 })
                }
            },
            None => if check_utf8(f) {
                Err(ParseError { column, kind: ParseErrorKind::InvalidNumber })
            } else {
                Err(ParseError { column, kind: ParseErrorKind::InvalidUTF8 })
            },
        }
    }

    /// Parse one wire line, `ts,x_filt,y_filt,z_filt,x,y,z`.
    pub fn from(line: &[u8]) -> (r: Result<Record, ParseError>)
        ensures
            r == spec_from(line@),
    {
        let fields = split_fields(line);
        let ghost gf = spec_fields(line@);

        let mut record = Record::default();
        record.timestamp_us = Self::parse_next_u64(field_at(&fields, 0), 0)?;
        record.x_filt = Self::parse_next_i32(field_at(&fields, 1), 1)?;
        record.y_filt = Self::parse_next_i32(field_at(&fields, 2), 2)?;
        record.z_filt = Self::parse_next_i32(field_at(&fields, 3), 3)?;
        record.x = Self::parse_next_i32(field_at(&fields, 4), 4)?;
        record.y = Self::parse_next_i32(field_at(&fields, 5), 5)?;
        record.z = Self::parse_next_i32(field_at(&fields, 6), 6)?;

        Ok(record)
    }
}

/// Borrow the `k`-th field, if there is one.
fn field_at<'a>(fields: &'a Vec<Vec<u8>>, k: usize) -> (r: Option<&'a [u8]>)
    ensures
        match r {
            Some(f) => spec_field_at(fields@.map_values(|v: Vec<u8>| v@), k as int) == Some(f@),
            None => spec_field_at(fields@.map_values(|v: Vec<u8>| v@), k as int) is None,
        },
{
    if k < fields.len() {
        Some(fields[k].as_slice())
    } else {
        None
    }
}

/// Split a line at its commas.
fn split_fields(line: &[u8]) -> (fields: Vec<Vec<u8>>)
    ensures
        fields@.map_values(|v: Vec<u8>| v@) == spec_fields(line@),
{
    let mut done: Vec<Vec<u8>> = Vec::new();
    let mut cur: Vec<u8> = Vec::new();
    let mut i: usize = 0;
    proof {
        lemma_spec_fields_len(line@);
        assert(line@.skip(0) =~= line@);
        assert(cur@ + spec_fields(line@)[0] =~= spec_fields(line@)[0]);
        assert(done@.map_values(|v: Vec<u8>| v@) + spec_fields(line@).update(
            0,
            cur@ + spec_fields(line@)[0],
        ) =~~= spec_fields(line@));
    }
    while i < line.len()
        invariant
            0 <= i <= line@.len(),
            forall|p: int| 0 <= p < cur@.len() ==> #[trigger] cur@[p] != 44,
            spec_fields(line@) == done@.map_values(|v: Vec<u8>| v@) + spec_fields(
                line@.skip(i as int),
            ).update(0, cur@ + spec_fields(line@.skip(i as int))[0]),
        decreases line@.len() - i,
    {
        let ghost tail = line@.skip(i as int);
        let ghost base = spec_fields(line@.skip(i as int + 1));
        let b = line[i];
        proof {
            assert(tail.len() > 0 && tail[0] == line@[i as int]);
            assert(tail.drop_first() =~= line@.skip(i as int + 1));
        }
        if b == 44 {
            proof {
                lemma_spec_fields_len(line@.skip(i as int + 1));
                assert(spec_fields(tail) == seq![Seq::<u8>::empty()] + base);
                assert(spec_fields(tail).update(0, cur@ + spec_fields(tail)[0]) =~~= seq![cur@]
                    + base);
                assert((done@.map_values(|v: Vec<u8>| v@) + (seq![cur@] + base)) =~~= (done@.push(
                    cur,
                ).map_values(|v: Vec<u8>| v@) + base.update(0, Seq::<u8>::empty() + base[0])));
            }
            done.push(cur);
            cur = Vec::new();
        } else {
            proof {
                lemma_spec_fields_len(line@.skip(i as int + 1));
                assert(spec_fields(tail) == base.update(0, seq![tail[0]] + base[0]));
                assert(cur@ + (seq![tail[0]] + base[0]) =~= cur@.push(b) + base[0]);
                assert(spec_fields(tail).update(0, cur@ + spec_fields(tail)[0]) =~~= base.update(
                    0,
                    cur@.push(b) + base[0],
                ));
            }
            cur.push(b);
        }
        i = i + 1;
    }
    proof {
        assert(line@.skip(i as int) =~= Seq::<u8>::empty());
        assert(spec_fields(Seq::<u8>::empty()) == seq![Seq::<u8>::empty()]);
        assert(spec_fields(line@.skip(i as int)).update(
            0,
            cur@ + spec_fields(line@.skip(i as int))[0],
        ) =~~= seq![cur@]);
    }
    done.push(cur);
    proof {
        assert(done@.map_values(|v: Vec<u8>| v@) =~~= spec_fields(line@));
    }
    done
}

} // verus!
