//! Turning a submitted form into a validated subscriber.

use vstd::prelude::*;
use vstd::utf8::{decode_utf8, valid_utf8};

use crate::domain::{field_label, joined_violations, violations_of, Field, NewSubscriber, ValidationErrors};
use crate::text::{same_text, starts_with};

verus! {

/// Why a request body could not be read as a subscription form.
#[derive(Clone, Copy, Debug, PartialEq, Eq, Structural)]
pub enum DecodeError {
    /// The request does not declare a url-encoded form.
    UnsupportedContentType,
    /// A `%` is not followed by two hex digits, or a decoded text is not UTF-8.
    MalformedBody,
    /// The form has no value for the field.
    MissingField(Field),
    /// The form has more than one value for the field.
    DuplicateField(Field),
}

pub open spec fn form_content_type() -> Seq<char> {
    "application/x-www-form-urlencoded"@
}

/// Whether a declared content type names a url-encoded form; parameters such
/// as a charset may follow.
pub open spec fn is_form_content_type(ct: Seq<char>) -> bool {
    ct.len() >= form_content_type().len() && ct.subrange(0, form_content_type().len() as int)
        == form_content_type()
}

/// The pieces of `b` between the separators, empty ones included.
pub open spec fn split_on(b: Seq<u8>, sep: u8) -> Seq<Seq<u8>>
    decreases b.len(),
{
    if b.len() == 0 {
        seq![Seq::<u8>::empty()]
    } else {
        let init = split_on(b.drop_last(), sep);
        if b.last() == sep {
            init.push(Seq::<u8>::empty())
        } else {
            init.update(init.len() - 1, init.last().push(b.last()))
        }
    }
}

pub proof fn lemma_split_on_nonempty(b: Seq<u8>, sep: u8)
    ensures
        split_on(b, sep).len() >= 1,
    decreases b.len(),
{
    if b.len() > 0 {
        lemma_split_on_nonempty(b.drop_last(), sep);
    }
}

pub open spec fn is_hex_digit(b: u8) -> bool {
    (0x30 <= b && b <= 0x39) || (0x41 <= b && b <= 0x46) || (0x61 <= b && b <= 0x66)
}

pub open spec fn hex_digit_value(b: u8) -> u8 {
    if 0x30 <= b && b <= 0x39 {
        (b - 0x30) as u8
    } else if 0x41 <= b && b <= 0x46 {
        (b - 0x41 + 10) as u8
    } else {
        (b - 0x61 + 10) as u8
    }
}

pub open spec fn prefixed(p: Seq<u8>, o: Option<Seq<u8>>) -> Option<Seq<u8>> {
    match o {
        Some(t) => Some(p + t),
        None => None,
    }
}

/// The bytes that a url-encoded text stands for: `+` is a space and `%XY` the
/// byte with hex value `XY`; any other `%` makes the text malformed.
pub open spec fn percent_decoded(s: Seq<u8>) -> Option<Seq<u8>>
    decreases s.len(),
{
    if s.len() == 0 {
        Some(Seq::<u8>::empty())
    } else if s[0] == 0x2b {
        prefixed(seq![0x20u8], percent_decoded(s.drop_first()))
    } else if s[0] == 0x25 {
        if s.len() >= 3 && is_hex_digit(s[1]) && is_hex_digit(s[2]) {
            prefixed(
                seq![(hex_digit_value(s[1]) * 16 + hex_digit_value(s[2])) as u8],
                percent_decoded(s.subrange(3, s.len() as int)),
            )
        } else {
            None
        }
    } else {
        prefixed(seq![s[0]], percent_decoded(s.drop_first()))
    }
}

/// `k` is where the first `=` of `s` stands, or the length of `s` if none does.
pub open spec fn is_first_eq(s: Seq<u8>, k: int) -> bool {
    &&& 0 <= k <= s.len()
    &&& forall|j: int| 0 <= j < k ==> #[trigger] s[j] != 0x3d
    &&& k < s.len() ==> s[k] == 0x3d
}

pub open spec fn first_eq(s: Seq<u8>) -> int {
    choose|k: int| is_first_eq(s, k)
}

pub open spec fn text_of(b: Option<Seq<u8>>) -> Option<Seq<char>> {
    match b {
        Some(t) => if valid_utf8(t) {
            Some(decode_utf8(t))
        } else {
            None
        },
        None => None,
    }
}

/// The key and the value of one non-empty piece of a form: the key stands
/// before the first `=`, the value after it.
pub open spec fn decoded_pair(s: Seq<u8>) -> Option<(Seq<char>, Seq<char>)> {
    let k = first_eq(s);
    let key = text_of(percent_decoded(s.subrange(0, k)));
    let value = if k < s.len() {
        text_of(percent_decoded(s.subrange(k + 1, s.len() as int)))
    } else {
        Some(Seq::<char>::empty())
    };
    match (key, value) {
        (Some(a), Some(b)) => Some((a, b)),
        _ => None,
    }
}

/// The pairs of a list of pieces, empty pieces left out; `None` if one piece
/// is malformed.
pub open spec fn decoded_pairs(segs: Seq<Seq<u8>>) -> Option<Seq<(Seq<char>, Seq<char>)>>
    decreases segs.len(),
{
    if segs.len() == 0 {
        Some(Seq::empty())
    } else {
        match decoded_pairs(segs.drop_last()) {
            None => None,
            Some(ps) => if segs.last().len() == 0 {
                Some(ps)
            } else {
                match decoded_pair(segs.last()) {
                    Some(p) => Some(ps.push(p)),
                    None => None,
                }
            },
        }
    }
}

/// The key-value pairs of a url-encoded body, in order.
pub open spec fn form_pairs(body: Seq<u8>) -> Option<Seq<(Seq<char>, Seq<char>)>> {
    decoded_pairs(split_on(body, 0x26))
}

/// The value of the only pair whose key is `key`.
pub open spec fn field_value(ps: Seq<(Seq<char>, Seq<char>)>, key: Seq<char>, f: Field) -> Result<
    Seq<char>,
    DecodeError,
>
    decreases ps.len(),
{
    if ps.len() == 0 {
        Err(DecodeError::MissingField(f))
    } else {
        match field_value(ps.drop_last(), key, f) {
            Ok(v) => if ps.last().0 == key {
                Err(DecodeError::DuplicateField(f))
            } else {
                Ok(v)
            },
            Err(DecodeError::MissingField(g)) => if ps.last().0 == key {
                Ok(ps.last().1)
            } else {
                Err(DecodeError::MissingField(g))
            },
            Err(e) => Err(e),
        }
    }
}

/// The name and the email that a request declares, or why it does not.
pub open spec fn decoded_form(ct: Seq<char>, body: Seq<u8>) -> Result<
    (Seq<char>, Seq<char>),
    DecodeError,
> {
    if !is_form_content_type(ct) {
        Err(DecodeError::UnsupportedContentType)
    } else {
        match form_pairs(body) {
            None => Err(DecodeError::MalformedBody),
            Some(ps) => match field_value(ps, "name"@, Field::Name) {
                Err(e) => Err(e),
                Ok(n) => match field_value(ps, "email"@, Field::Email) {
                    Err(e) => Err(e),
                    Ok(m) => Ok((n, m)),
                },
            },
        }
    }
}

/// Relies on `String::from_utf8`: it succeeds exactly on valid UTF-8 and
/// then holds the characters that the bytes encode.
#[verifier::external_body]
fn utf8_text(b: Vec<u8>) -> (r: Option<String>)
    ensures
        r is Some <==> valid_utf8(b@),
        r matches Some(t) ==> t@ == decode_utf8(b@),
{
    String::from_utf8(b).ok()
}

fn hex_digit(b: u8) -> (r: Option<u8>)
    ensures
        r is Some <==> is_hex_digit(b),
        r matches Some(v) ==> v == hex_digit_value(b),
{
    if 0x30 <= b && b <= 0x39 {
        Some(b - 0x30)
    } else if 0x41 <= b && b <= 0x46 {
        Some(b - 0x41 + 10)
    } else if 0x61 <= b && b <= 0x66 {
        Some(b - 0x61 + 10)
    } else {
        None
    }
}

/// Decodes `b[from..to]`; see `percent_decoded`.
fn percent_decode(b: &[u8], from: usize, to: usize) -> (r: Option<Vec<u8>>)
    requires
        from <= to <= b@.len(),
    ensures
        match r {
            Some(v) => percent_decoded(b@.subrange(from as int, to as int)) == Some(v@),
            None => percent_decoded(b@.subrange(from as int, to as int)) is None,
        },
{
    let ghost s = b@.subrange(from as int, to as int);
    let mut out: Vec<u8> = Vec::new();
    let mut i: usize = from;
    while i < to
        invariant
            from <= i <= to <= b@.len(),
            s == b@.subrange(from as int, to as int),
            percent_decoded(s) == prefixed(out@, percent_decoded(b@.subrange(i as int, to as int))),
        decreases to - i,
    {
        let ghost rest = b@.subrange(i as int, to as int);
        let c = b[i];
        assert(rest[0] == c);
        if c == 0x25 {
            if to - i > 2 {
                let h = hex_digit(b[i + 1]);
                let l = hex_digit(b[i + 2]);
                assert(rest[1] == b@[i + 1] && rest[2] == b@[i + 2]);
                match (h, l) {
                    (Some(h), Some(l)) => {
                        assert(rest.subrange(3, rest.len() as int) =~= b@.subrange(
                            i + 3,
                            to as int,
                        ));
                        let ghost before = out@;
                        out.push(h * 16 + l);
                        proof {
                            match percent_decoded(b@.subrange(i + 3, to as int)) {
                                Some(t) => {
                                    assert(out@ + t =~= before + (seq![(h * 16 + l) as u8] + t));
                                },
                                None => {},
                            }
                        }
                        i = i + 3;
                    },
                    _ => {
                        return None;
                    },
                }
            } else {
                return None;
            }
        } else {
            assert(rest.drop_first() =~= b@.subrange(i + 1, to as int));
            let d: u8 = if c == 0x2b {
                0x20
            } else {
                c
            };
            let ghost before = out@;
            out.push(d);
            proof {
                match percent_decoded(b@.subrange(i + 1, to as int)) {
                    Some(t) => {
                        assert(out@ + t =~= before + (seq![d] + t));
                    },
                    None => {},
                }
            }
            i = i + 1;
        }
    }
    assert(b@.subrange(to as int, to as int) =~= Seq::<u8>::empty());
    assert(out@ + Seq::<u8>::empty() =~= out@);
    Some(out)
}

fn decode_text(b: &[u8], from: usize, to: usize) -> (r: Option<String>)
    requires
        from <= to <= b@.len(),
    ensures
        match r {
            Some(t) => text_of(percent_decoded(b@.subrange(from as int, to as int))) == Some(t@),
            None => text_of(percent_decoded(b@.subrange(from as int, to as int))) is None,
        },
{
    match percent_decode(b, from, to) {
        Some(v) => utf8_text(v),
        None => None,
    }
}

/// Decodes the piece `b[from..to]`; see `decoded_pair`.
fn decode_pair(b: &[u8], from: usize, to: usize) -> (r: Option<(String, String)>)
    requires
        from <= to <= b@.len(),
    ensures
        match r {
            Some(p) => decoded_pair(b@.subrange(from as int, to as int)) == Some((p.0@, p.1@)),
            None => decoded_pair(b@.subrange(from as int, to as int)) is None,
        },
{
    let ghost s = b@.subrange(from as int, to as int);
    let mut k: usize = from;
    while k < to && b[k] != 0x3d
        invariant
            from <= k <= to <= b@.len(),
            forall|j: int| from <= j < k ==> b@[j] != 0x3d,
        decreases to - k,
    {
        k = k + 1;
    }
    let ghost kk = (k - from) as int;
    assert(is_first_eq(s, kk));
    assert forall|k2: int| is_first_eq(s, k2) implies k2 == kk by {
        if k2 < kk {
            assert(s[k2] == 0x3d);
        } else if k2 > kk {
            assert(s[kk] == 0x3d);
        }
    }
    assert(first_eq(s) == kk);
    assert(s.subrange(0, kk) =~= b@.subrange(from as int, k as int));
    let key = decode_text(b, from, k);
    let value = if k < to {
        assert(s.subrange(kk + 1, s.len() as int) =~= b@.subrange(k + 1, to as int));
        decode_text(b, k + 1, to)
    } else {
        Some(String::new())
    };
    match (key, value) {
        (Some(a), Some(v)) => Some((a, v)),
        _ => None,
    }
}

pub open spec fn pair_views(ps: Seq<(String, String)>) -> Seq<(Seq<char>, Seq<char>)> {
    ps.map_values(|p: (String, String)| (p.0@, p.1@))
}

/// Reads the key-value pairs of a url-encoded body.
pub fn decode_form_pairs(body: &[u8]) -> (r: Option<Vec<(String, String)>>)
    ensures
        match r {
            Some(ps) => form_pairs(body@) == Some(pair_views(ps@)),
            None => form_pairs(body@) is None,
        },
{
    let n = body.len();
    let mut pairs: Vec<(String, String)> = Vec::new();
    let mut failed = false;
    let mut start: usize = 0;
    let mut i: usize = 0;
    let ghost mut segs: Seq<Seq<u8>> = Seq::empty();
    assert(body@.subrange(0, 0) =~= Seq::<u8>::empty());
    assert(segs.push(body@.subrange(0, 0)) =~= seq![Seq::<u8>::empty()]);
    while i < n
        invariant
            n == body@.len(),
            start <= i <= n,
            split_on(body@.subrange(0, i as int), 0x26) == segs.push(
                body@.subrange(start as int, i as int),
            ),
            failed ==> decoded_pairs(segs) is None,
            !failed ==> decoded_pairs(segs) == Some(pair_views(pairs@)),
        decreases n - i,
    {
        let ghost prefix = body@.subrange(0, i as int);
        let ghost next = body@.subrange(0, i + 1);
        assert(next.drop_last() =~= prefix);
        assert(next.last() == body@[i as int]);
        if body[i] == 0x26 {
            let ghost seg = body@.subrange(start as int, i as int);
            if !failed && start < i {
                match decode_pair(body, start, i) {
                    Some(p) => {
                        let ghost before = pairs@;
                        pairs.push(p);
                        assert(pairs@.drop_last() =~= before);
                        assert(pair_views(pairs@) =~= pair_views(before).push((p.0@, p.1@)));
                    },
                    None => {
                        failed = true;
                    },
                }
            }
            proof {
                lemma_split_on_nonempty(prefix, 0x26);
                assert(split_on(next, 0x26) == split_on(prefix, 0x26).push(Seq::<u8>::empty()));
                assert(body@.subrange(i + 1, i + 1) =~= Seq::<u8>::empty());
                let s2 = segs.push(seg);
                assert(s2.drop_last() =~= segs);
                segs = s2;
            }
            start = i + 1;
        } else {
            proof {
                let a = segs.push(body@.subrange(start as int, i as int));
                lemma_split_on_nonempty(prefix, 0x26);
                assert(split_on(next, 0x26) == a.update(a.len() - 1, a.last().push(body@[i as int])));
                assert(body@.subrange(start as int, i as int).push(body@[i as int]) =~= body@.subrange(
                    start as int,
                    i + 1,
                ));
                assert(a.update(a.len() - 1, a.last().push(body@[i as int])) =~= segs.push(
                    body@.subrange(start as int, i + 1),
                ));
            }
        }
        i = i + 1;
    }
    let ghost last = body@.subrange(start as int, n as int);
    assert(body@.subrange(0, n as int) =~= body@);
    if !failed && start < n {
        match decode_pair(body, start, n) {
            Some(p) => {
                let ghost before = pairs@;
                pairs.push(p);
                assert(pairs@.drop_last() =~= before);
                assert(pair_views(pairs@) =~= pair_views(before).push((p.0@, p.1@)));
            },
            None => {
                failed = true;
            },
        }
    }
    assert(segs.push(last).drop_last() =~= segs);
    if failed {
        None
    } else {
        Some(pairs)
    }
}

proof fn lemma_duplicate_stays(ps: Seq<(Seq<char>, Seq<char>)>, key: Seq<char>, f: Field, j: int)
    requires
        0 <= j <= ps.len(),
        field_value(ps.subrange(0, j), key, f) == Err::<Seq<char>, DecodeError>(
            DecodeError::DuplicateField(f),
        ),
    ensures
        field_value(ps, key, f) == Err::<Seq<char>, DecodeError>(DecodeError::DuplicateField(f)),
    decreases ps.len() - j,
{
    if j < ps.len() {
        assert(ps.subrange(0, j + 1).drop_last() =~= ps.subrange(0, j));
        lemma_duplicate_stays(ps, key, f, j + 1);
    } else {
        assert(ps.subrange(0, j) =~= ps);
    }
}

/// Finds the value of `key`; see `field_value`.
fn find_field(pairs: &Vec<(String, String)>, key: &str, f: Field) -> (r: Result<String, DecodeError>)
    ensures
        match r {
            Ok(v) => field_value(pair_views(pairs@), key@, f) == Ok::<Seq<char>, DecodeError>(v@),
            Err(e) => field_value(pair_views(pairs@), key@, f) == Err::<Seq<char>, DecodeError>(e),
        },
{
    let ghost ps = pair_views(pairs@);
    let mut found: Option<String> = None;
    let mut i: usize = 0;
    while i < pairs.len()
        invariant
            i <= pairs@.len(),
            ps == pair_views(pairs@),
            match found {
                Some(v) => field_value(ps.subrange(0, i as int), key@, f) == Ok::<
                    Seq<char>,
                    DecodeError,
                >(v@),
                None => field_value(ps.subrange(0, i as int), key@, f) == Err::<
                    Seq<char>,
                    DecodeError,
                >(DecodeError::MissingField(f)),
            },
        decreases pairs@.len() - i,
    {
        let ghost next = ps.subrange(0, i + 1);
        assert(next.drop_last() =~= ps.subrange(0, i as int));
        assert(next.last() == (pairs@[i as int].0@, pairs@[i as int].1@));
        if same_text(pairs[i].0.as_str(), key) {
            if found.is_some() {
                proof {
                    lemma_duplicate_stays(ps, key@, f, i + 1);
                }
                return Err(DecodeError::DuplicateField(f));
            }
            found = Some(pairs[i].1.clone());
        }
        i = i + 1;
    }
    assert(ps.subrange(0, pairs@.len() as int) =~= ps);
    match found {
        Some(v) => Ok(v),
        None => Err(DecodeError::MissingField(f)),
    }
}

/// The two fields of a subscription form, as submitted.
#[derive(Debug)]
pub struct SubscriptionData {
    pub name: String,
    pub email: String,
}

impl SubscriptionData {
    /// Reads the `name` and `email` fields of a url-encoded form body, which
    /// `content_type` must declare. Other fields are ignored.
    pub fn from_form(content_type: &str, body: &[u8]) -> (r: Result<SubscriptionData, DecodeError>)
        ensures
            match r {
                Ok(d) => decoded_form(content_type@, body@) == Ok::<
                    (Seq<char>, Seq<char>),
                    DecodeError,
                >((d.name@, d.email@)),
                Err(e) => decoded_form(content_type@, body@) == Err::<
                    (Seq<char>, Seq<char>),
                    DecodeError,
                >(e),
            },
    {
        if !starts_with(content_type, "application/x-www-form-urlencoded") {
            return Err(DecodeError::UnsupportedContentType);
        }
        let pairs = match decode_form_pairs(body) {
            Some(ps) => ps,
            None => {
                return Err(DecodeError::MalformedBody);
            },
        };
        let name = match find_field(&pairs, "name", Field::Name) {
            Ok(v) => v,
            Err(e) => {
                return Err(e);
            },
        };
        let email = match find_field(&pairs, "email", Field::Email) {
            Ok(v) => v,
            Err(e) => {
                return Err(e);
            },
        };
        Ok(SubscriptionData { name, email })
    }
}

/// Why a submitted form was refused.
#[derive(Debug)]
pub enum Error {
    /// The body could not be read as a subscription form.
    DecodeError(DecodeError),
    /// The fields were read and broke the rules of a subscriber.
    ValidationError(ValidationErrors),
}

/// The HTTP status of every refusal: the request could not be processed.
pub const UNPROCESSABLE_ENTITY: u16 = 422;

impl DecodeError {
    /// What went wrong, in words.
    pub fn message(&self) -> (r: String)
        ensures
            r@ == decode_message(*self),
    {
        match self {
            DecodeError::UnsupportedContentType => String::from_str(
                "Form requests must have `Content-Type: application/x-www-form-urlencoded`",
            ),
            DecodeError::MalformedBody => String::from_str(
                "Failed to deserialize form body: invalid url encoding",
            ),
            DecodeError::MissingField(f) => {
                let mut r = String::from_str("Failed to deserialize form body: missing field `");
                r.append(f.label());
                r.append("`");
                r
            },
            DecodeError::DuplicateField(f) => {
                let mut r = String::from_str("Failed to deserialize form body: duplicate field `");
                r.append(f.label());
                r.append("`");
                r
            },
        }
    }
}

pub open spec fn decode_message(e: DecodeError) -> Seq<char> {
    match e {
        DecodeError::UnsupportedContentType => "Form requests must have `Content-Type: application/x-www-form-urlencoded`"@,
        DecodeError::MalformedBody => "Failed to deserialize form body: invalid url encoding"@,
        DecodeError::MissingField(f) => "Failed to deserialize form body: missing field `"@ + field_label(f) + "`"@,
        DecodeError::DuplicateField(f) => "Failed to deserialize form body: duplicate field `"@ + field_label(f) + "`"@,
    }
}

/// The text that answers a refusal.
pub open spec fn rejection_message(e: &Error) -> Seq<char> {
    match e {
        Error::DecodeError(d) => decode_message(*d),
        Error::ValidationError(v) => "Input validation error: ["@ + joined_violations(v.violations@) + "]"@,
    }
}

impl Error {
    /// The text that answers this refusal, on one line.
    pub fn message(&self) -> (r: String)
        ensures
            r@ == rejection_message(self),
    {
        match self {
            Error::DecodeError(d) => d.message(),
            Error::ValidationError(v) => {
                let mut r = String::from_str("Input validation error: [");
                r.append(v.message().as_str());
                r.append("]");
                r
            },
        }
    }

    /// The HTTP status that answers this refusal.
    pub fn status(&self) -> (r: u16)
        ensures
            r == UNPROCESSABLE_ENTITY,
    {
        UNPROCESSABLE_ENTITY
    }
}

/// A value that was read from a request and passed validation.
#[derive(Debug)]
pub struct ValidatedForm<T>(pub T);

impl ValidatedForm<NewSubscriber> {
    /// Decodes a submitted form, then validates both of its fields.
    pub fn from_request(content_type: &str, body: &[u8]) -> (r: Result<
        ValidatedForm<NewSubscriber>,
        Error,
    >)
        ensures
            match decoded_form(content_type@, body@) {
                Err(d) => r matches Err(Error::DecodeError(e)) && e == d,
                Ok((name, email)) => match r {
                    Ok(ValidatedForm(s)) => violations_of(name, email).len() == 0 && s.name@
                        == name && s.email@ == email,
                    Err(Error::ValidationError(v)) => violations_of(name, email).len() > 0
                        && v.violations@ == violations_of(name, email),
                    Err(Error::DecodeError(_)) => false,
                },
            },
    {
        let data = match SubscriptionData::from_form(content_type, body) {
            Ok(d) => d,
            Err(e) => {
                return Err(Error::DecodeError(e));
            },
        };
        match NewSubscriber::try_from(data.name, data.email) {
            Ok(s) => Ok(ValidatedForm(s)),
            Err(v) => Err(Error::ValidationError(v)),
        }
    }
}

} // verus!
