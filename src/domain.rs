//! Validated value types for subscribers.

use vstd::prelude::*;

use crate::text::chars_of;

verus! {

/// One violated validation rule.
#[derive(Clone, Copy, Debug, PartialEq, Eq, Structural)]
pub enum ValidationError {
    /// The value holds no character.
    TooShort,
    /// The value holds more characters than allowed.
    TooLong,
    /// The value holds white space only.
    BlankContent,
    /// The value holds a character that names may not contain.
    ForbiddenCharacter,
    /// The value is not an email address.
    InvalidFormat,
}

/// The longest subscriber name, counted in Unicode scalar values.
pub const MAX_NAME_LENGTH: usize = 256;

/// Whether `c` has the Unicode `White_Space` property.
pub open spec fn is_white_space(c: char) -> bool {
    let u = c as u32;
    (0x9 <= u && u <= 0xd) || u == 0x20 || u == 0x85 || u == 0xa0 || u == 0x1680
        || (0x2000 <= u && u <= 0x200a) || u == 0x2028 || u == 0x2029 || u == 0x202f
        || u == 0x205f || u == 0x3000
}

/// Whether `c` is one of the characters that names may not contain.
pub open spec fn is_forbidden_in_name(c: char) -> bool {
    c == '/' || c == '(' || c == ')' || c == '"' || c == '<' || c == '>' || c == '\\' || c == '{'
        || c == '}'
}

pub open spec fn all_white_space(s: Seq<char>) -> bool {
    forall|i: int| 0 <= i < s.len() ==> is_white_space(#[trigger] s[i])
}

pub open spec fn has_forbidden_char(s: Seq<char>) -> bool {
    exists|i: int| 0 <= i < s.len() && is_forbidden_in_name(#[trigger] s[i])
}

/// The first rule that `s` breaks as a subscriber name, if any.
pub open spec fn name_violation(s: Seq<char>) -> Option<ValidationError> {
    if s.len() < 1 {
        Some(ValidationError::TooShort)
    } else if s.len() > MAX_NAME_LENGTH {
        Some(ValidationError::TooLong)
    } else if all_white_space(s) {
        Some(ValidationError::BlankContent)
    } else if has_forbidden_char(s) {
        Some(ValidationError::ForbiddenCharacter)
    } else {
        None
    }
}

/// Whether `c` has the Unicode `White_Space` property, as `char::is_whitespace`
/// answers.
pub fn white_space(c: char) -> (r: bool)
    ensures
        r == is_white_space(c),
{
    let u = c as u32;
    (0x9 <= u && u <= 0xd) || u == 0x20 || u == 0x85 || u == 0xa0 || u == 0x1680 || (0x2000
        <= u && u <= 0x200a) || u == 0x2028 || u == 0x2029 || u == 0x202f || u == 0x205f || u
        == 0x3000
}

/// Whether names may not contain `c`.
pub fn forbidden_in_name(c: char) -> (r: bool)
    ensures
        r == is_forbidden_in_name(c),
{
    c == '/' || c == '(' || c == ')' || c == '"' || c == '<' || c == '>' || c == '\\' || c == '{'
        || c == '}'
}

/// A subscriber's name, valid by construction.
#[derive(Debug)]
pub struct SubscriberName {
    name: String,
}

impl View for SubscriberName {
    type V = Seq<char>;

    closed spec fn view(&self) -> Seq<char> {
        self.name@
    }
}

impl SubscriberName {
    #[verifier::type_invariant]
    spec fn well_formed(&self) -> bool {
        name_violation(self.name@) is None
    }

    /// Checks `name` against the rules, in order: length, blank content,
    /// forbidden characters. The text is kept as it is.
    pub fn parse(name: String) -> (r: Result<SubscriberName, ValidationError>)
        ensures
            match r {
                Ok(n) => name_violation(name@) is None && n@ == name@,
                Err(e) => name_violation(name@) == Some(e),
            },
    {
        let cs = chars_of(name.as_str());
        let len = cs.len();
        if len < 1 {
            return Err(ValidationError::TooShort);
        }
        if len > MAX_NAME_LENGTH {
            return Err(ValidationError::TooLong);
        }
        let mut blank = true;
        let mut i: usize = 0;
        while i < len
            invariant
                len == name@.len(),
                cs@ == name@,
                i <= len,
                blank == (forall|j: int| 0 <= j < i ==> is_white_space(#[trigger] name@[j])),
            decreases len - i,
        {
            let c = cs[i];
            if !white_space(c) {
                blank = false;
            }
            i = i + 1;
        }
        if blank {
            return Err(ValidationError::BlankContent);
        }
        let mut k: usize = 0;
        while k < len
            invariant
                len == name@.len(),
                cs@ == name@,
                1 <= len <= MAX_NAME_LENGTH,
                !all_white_space(name@),
                k <= len,
                forall|j: int| 0 <= j < k ==> !is_forbidden_in_name(#[trigger] name@[j]),
            decreases len - k,
        {
            let c = cs[k];
            if forbidden_in_name(c) {
                assert(is_forbidden_in_name(name@[k as int]));
                return Err(ValidationError::ForbiddenCharacter);
            }
            k = k + 1;
        }
        Ok(SubscriberName { name })
    }

    /// The name as it was given; it satisfies every rule.
    pub fn as_ref(&self) -> (r: &str)
        ensures
            r@ == self@,
            name_violation(r@) is None,
    {
        proof {
            use_type_invariant(self);
        }
        self.name.as_str()
    }
}

/// What `validator::validate_email` answers for a text.
pub uninterp spec fn email_accepted(s: Seq<char>) -> bool;

/// Relies on `validator::validate_email`, which checks a text against the
/// HTML5 address grammar and refuses empty text.
#[verifier::external_body]
fn validator_accepts_email(s: &str) -> (r: bool)
    ensures
        r == email_accepted(s@),
        s@.len() == 0 ==> !r,
{
    validator::validate_email(s)
}

/// Position `k` holds the last `@` of `s`.
pub open spec fn is_last_at(s: Seq<char>, k: int) -> bool {
    &&& 0 <= k < s.len()
    &&& s[k] == '@'
    &&& forall|j: int| k < j < s.len() ==> #[trigger] s[j] != '@'
}

/// `s` is a non-empty local part, `@`, and a domain part that holds a `.`:
/// the local part is what stands before the last `@`.
pub open spec fn has_address_shape(s: Seq<char>) -> bool {
    exists|k: int|
        #![trigger is_last_at(s, k)]
        is_last_at(s, k) && k > 0 && exists|d: int| k < d < s.len() && #[trigger] s[d] == '.'
}

/// The rule that `s` breaks as an email address, given whether `validator`
/// accepts it.
pub open spec fn email_violation_given(s: Seq<char>, accepted: bool) -> Option<ValidationError> {
    if has_address_shape(s) && accepted {
        None
    } else {
        Some(ValidationError::InvalidFormat)
    }
}

/// The rule that `s` breaks as an email address, if any.
pub open spec fn email_violation(s: Seq<char>) -> Option<ValidationError> {
    email_violation_given(s, email_accepted(s))
}

/// Whether `s` has the shape `local@domain.tld`; see `has_address_shape`.
pub fn address_shape(s: &str) -> (r: bool)
    ensures
        r == has_address_shape(s@),
{
    let cs = chars_of(s);
    let len = cs.len();
    let mut last_at: usize = len;
    let mut i: usize = 0;
    while i < len
        invariant
            len == s@.len(),
            cs@ == s@,
            i <= len,
            last_at <= len,
            last_at == len ==> forall|j: int| 0 <= j < i ==> #[trigger] s@[j] != '@',
            last_at < len ==> last_at < i && s@[last_at as int] == '@' && forall|j: int|
                last_at < j < i ==> #[trigger] s@[j] != '@',
        decreases len - i,
    {
        if cs[i] == '@' {
            last_at = i;
        }
        i = i + 1;
    }
    if last_at == len {
        assert forall|k: int| !is_last_at(s@, k) by {
            if 0 <= k < s@.len() {
                assert(s@[k] != '@');
            }
        }
        return false;
    }
    assert(is_last_at(s@, last_at as int));
    assert forall|k: int| #[trigger] is_last_at(s@, k) implies k == last_at by {
        if k < last_at {
            assert(s@[last_at as int] == '@');
        } else if k > last_at {
            assert(s@[k] == '@');
        }
    }
    if last_at == 0 {
        return false;
    }
    let mut d: usize = last_at + 1;
    while d < len
        invariant
            len == s@.len(),
            cs@ == s@,
            0 < last_at < d <= len,
            is_last_at(s@, last_at as int),
            forall|j: int| last_at < j < d ==> #[trigger] s@[j] != '.',
        decreases len - d,
    {
        if cs[d] == '.' {
            assert(is_last_at(s@, last_at as int) && s@[d as int] == '.');
            return true;
        }
        d = d + 1;
    }
    false
}

/// The rule that `email` breaks, given `accepted`, what `validator` answered
/// for it.
pub fn email_verdict(email: &str, accepted: bool) -> (r: Option<ValidationError>)
    ensures
        r == email_violation_given(email@, accepted),
{
    if address_shape(email) && accepted {
        None
    } else {
        Some(ValidationError::InvalidFormat)
    }
}

/// A subscriber's email address, valid by construction.
#[derive(Debug)]
pub struct SubscriberEmail {
    email: String,
}

impl View for SubscriberEmail {
    type V = Seq<char>;

    closed spec fn view(&self) -> Seq<char> {
        self.email@
    }
}

impl SubscriberEmail {
    #[verifier::type_invariant]
    spec fn well_formed(&self) -> bool {
        email_violation(self.email@) is None
    }

    /// Accepts `email` when it has the shape `local@domain.tld` and
    /// `validator` takes it for an address. The text is kept as it is.
    pub fn parse(email: String) -> (r: Result<SubscriberEmail, ValidationError>)
        ensures
            match r {
                Ok(e) => email_violation(email@) is None && e@ == email@,
                Err(e) => email_violation(email@) == Some(e),
            },
    {
        let accepted = validator_accepts_email(email.as_str());
        match email_verdict(email.as_str(), accepted) {
            None => Ok(SubscriberEmail { email }),
            Some(e) => Err(e),
        }
    }

    /// The address as it was given; it satisfies every rule.
    pub fn as_ref(&self) -> (r: &str)
        ensures
            r@ == self@,
            email_violation(r@) is None,
    {
        proof {
            use_type_invariant(self);
        }
        self.email.as_str()
    }
}

/// The field of a subscription that a rule was checked on.
#[derive(Clone, Copy, Debug, PartialEq, Eq, Structural)]
pub enum Field {
    Name,
    Email,
}

/// A rule that one field broke.
#[derive(Clone, Copy, Debug, PartialEq, Eq, Structural)]
pub struct Violation {
    pub field: Field,
    pub error: ValidationError,
}

/// Every rule that a subscription broke: the name's first, then the email's.
pub open spec fn violations_of(name: Seq<char>, email: Seq<char>) -> Seq<Violation> {
    let n = match name_violation(name) {
        Some(e) => seq![Violation { field: Field::Name, error: e }],
        None => Seq::<Violation>::empty(),
    };
    let m = match email_violation(email) {
        Some(e) => seq![Violation { field: Field::Email, error: e }],
        None => Seq::<Violation>::empty(),
    };
    n + m
}

pub open spec fn field_label(f: Field) -> Seq<char> {
    match f {
        Field::Name => "name"@,
        Field::Email => "email"@,
    }
}

pub open spec fn error_reason(e: ValidationError) -> Seq<char> {
    match e {
        ValidationError::TooShort => "must not be empty"@,
        ValidationError::TooLong => "must be at most 256 characters long"@,
        ValidationError::BlankContent => "must not be all whitespace"@,
        ValidationError::ForbiddenCharacter => "may not contain any of the following characters: /, (, ), \", <, >, \\, {, }"@,
        ValidationError::InvalidFormat => "must be a valid email address"@,
    }
}

/// `field: reason` for one broken rule.
pub open spec fn violation_text(v: Violation) -> Seq<char> {
    field_label(v.field) + ": "@ + error_reason(v.error)
}

/// The texts of `vs`, joined by `, `.
pub open spec fn joined_violations(vs: Seq<Violation>) -> Seq<char>
    decreases vs.len(),
{
    if vs.len() == 0 {
        Seq::empty()
    } else if vs.len() == 1 {
        violation_text(vs[0])
    } else {
        joined_violations(vs.drop_last()) + ", "@ + violation_text(vs.last())
    }
}

impl Field {
    /// The field's name in a form.
    pub fn label(&self) -> (r: &'static str)
        ensures
            r@ == field_label(*self),
    {
        match self {
            Field::Name => "name",
            Field::Email => "email",
        }
    }
}

impl ValidationError {
    /// The rule, in words.
    pub fn reason(&self) -> (r: &'static str)
        ensures
            r@ == error_reason(*self),
    {
        match self {
            ValidationError::TooShort => "must not be empty",
            ValidationError::TooLong => "must be at most 256 characters long",
            ValidationError::BlankContent => "must not be all whitespace",
            ValidationError::ForbiddenCharacter => "may not contain any of the following characters: /, (, ), \", <, >, \\, {, }",
            ValidationError::InvalidFormat => "must be a valid email address",
        }
    }
}

/// The rules that a subscription broke, in the order of its fields.
#[derive(Debug)]
pub struct ValidationErrors {
    pub violations: Vec<Violation>,
}

impl ValidationErrors {
    /// Every broken rule on one line, `field: reason` each, joined by `, `.
    pub fn message(&self) -> (r: String)
        ensures
            r@ == joined_violations(self.violations@),
    {
        let mut r = String::new();
        let mut i: usize = 0;
        while i < self.violations.len()
            invariant
                i <= self.violations@.len(),
                r@ == joined_violations(self.violations@.subrange(0, i as int)),
            decreases self.violations@.len() - i,
        {
            let v = self.violations[i];
            let ghost next = self.violations@.subrange(0, i + 1);
            assert(next.drop_last() =~= self.violations@.subrange(0, i as int));
            if i > 0 {
                r.append(", ");
            } else {
                assert(r@ =~= Seq::<char>::empty());
            }
            r.append(v.field.label());
            r.append(": ");
            r.append(v.error.reason());
            proof {
                if i == 0 {
                    assert(r@ =~= violation_text(next[0]));
                }
            }
            i = i + 1;
        }
        assert(self.violations@.subrange(0, self.violations@.len() as int) =~= self.violations@);
        r
    }
}

/// A subscriber whose name and email both passed validation.
#[derive(Debug)]
pub struct NewSubscriber {
    pub name: SubscriberName,
    pub email: SubscriberEmail,
}

impl NewSubscriber {
    /// Validates both fields, each whatever the other gave, and reports every
    /// rule broken.
    pub fn try_from(name: String, email: String) -> (r: Result<NewSubscriber, ValidationErrors>)
        ensures
            match r {
                Ok(s) => violations_of(name@, email@).len() == 0 && s.name@ == name@ && s.email@
                    == email@,
                Err(e) => violations_of(name@, email@).len() > 0 && e.violations@
                    == violations_of(name@, email@),
            },
    {
        let ghost name_text = name@;
        let ghost email_text = email@;
        let name_result = SubscriberName::parse(name);
        let email_result = SubscriberEmail::parse(email);
        match (name_result, email_result) {
            (Ok(n), Ok(e)) => Ok(NewSubscriber { name: n, email: e }),
            (name_result, email_result) => {
                let mut violations: Vec<Violation> = Vec::new();
                if let Err(e) = name_result {
                    violations.push(Violation { field: Field::Name, error: e });
                }
                if let Err(e) = email_result {
                    violations.push(Violation { field: Field::Email, error: e });
                }
                assert(violations@ =~= violations_of(name_text, email_text));
                Err(ValidationErrors { violations })
            },
        }
    }
}

/// A name of 1 to 256 characters that is not all white space and holds no
/// forbidden character breaks no rule, so `SubscriberName::parse` accepts it
/// and keeps it unchanged.
pub proof fn lemma_valid_name_is_accepted(s: Seq<char>)
    requires
        1 <= s.len() <= MAX_NAME_LENGTH,
        !all_white_space(s),
        !has_forbidden_char(s),
    ensures
        name_violation(s) is None,
{
}

/// A name of more than 256 characters is refused, whatever it holds.
pub proof fn lemma_long_name_is_refused(s: Seq<char>)
    requires
        s.len() > MAX_NAME_LENGTH,
    ensures
        name_violation(s) == Some(ValidationError::TooLong),
{
}

/// A name made of one forbidden character is refused for that character.
pub proof fn lemma_forbidden_character_alone_is_refused(c: char)
    requires
        is_forbidden_in_name(c),
    ensures
        name_violation(seq![c]) == Some(ValidationError::ForbiddenCharacter),
{
    let s = seq![c];
    assert(!is_white_space(s[0]));
    assert(is_forbidden_in_name(s[0]));
}

/// A text without `@` is no email address.
pub proof fn lemma_address_without_at_is_refused(s: Seq<char>)
    requires
        forall|i: int| 0 <= i < s.len() ==> s[i] != '@',
    ensures
        email_violation(s) == Some(ValidationError::InvalidFormat),
{
    assert forall|k: int| !is_last_at(s, k) by {
        if 0 <= k < s.len() {
            assert(s[k] != '@');
        }
    }
}

/// A text whose only `@` comes first has no local part and is no email
/// address.
pub proof fn lemma_address_without_local_part_is_refused(s: Seq<char>)
    requires
        is_last_at(s, 0),
    ensures
        email_violation(s) == Some(ValidationError::InvalidFormat),
{
    assert forall|k: int| #[trigger] is_last_at(s, k) implies k == 0 by {
        if k > 0 {
            assert(s[k] == '@');
        }
    }
}

/// `local@domain.tld`, with no `@` after the local part, has the shape of
/// an address; whether it is accepted then rests on `validator` alone.
pub proof fn lemma_dotted_address_has_shape(local: Seq<char>, domain: Seq<char>, tld: Seq<char>)
    requires
        local.len() > 0,
        forall|i: int| 0 <= i < domain.len() ==> domain[i] != '@',
        forall|i: int| 0 <= i < tld.len() ==> tld[i] != '@',
    ensures
        has_address_shape(local + seq!['@'] + domain + seq!['.'] + tld),
        email_violation(local + seq!['@'] + domain + seq!['.'] + tld) is None <==> email_accepted(
            local + seq!['@'] + domain + seq!['.'] + tld,
        ),
{
    let s = local + seq!['@'] + domain + seq!['.'] + tld;
    let k = local.len() as int;
    let d = k + 1 + domain.len();
    assert(s[k] == '@');
    assert(s[d] == '.');
    assert forall|j: int| k < j < s.len() implies #[trigger] s[j] != '@' by {
        if j < d {
            assert(s[j] == domain[j - k - 1]);
        } else if j > d {
            assert(s[j] == tld[j - d - 1]);
        }
    }
    assert(is_last_at(s, k));
}

} // verus!
