//! The name under which an application's servers and clients find each other.
//!
//! A name is turned into the label of a service type, so it has to meet the
//! rules for such labels. Underscores are accepted in place of hyphens, since
//! package names often hold them.

use vstd::prelude::*;
use vstd::utf8::*;

verus! {

/// The rule that a name breaks.
#[derive(Clone, Copy, Debug, PartialEq, Eq, Structural)]
pub enum NameError {
    /// The name starts with a hyphen or an underscore.
    LeadingHyphen,
    /// The name ends with a hyphen or an underscore.
    TrailingHyphen,
    /// The name holds two hyphens or underscores in a row.
    DoubleHyphen,
    /// The name is longer than 15 bytes.
    TooLong,
    /// The name is empty.
    Empty,
    /// The name holds a character other than a letter of `a-z` or `A-Z`, a
    /// digit, a hyphen or an underscore.
    InvalidCharacter,
    /// The name holds no letter.
    NoLetter,
}

/// The greatest length of a name, in bytes.
pub const MAX_NAME_LENGTH: usize = 15;

/// `c` after normalization: a hyphen for an underscore, else `c`.
pub open spec fn normalized_char(c: char) -> char {
    if c == '_' {
        '-'
    } else {
        c
    }
}

/// `name` with every underscore rewritten to a hyphen.
pub open spec fn normalized(name: Seq<char>) -> Seq<char> {
    name.map_values(|c: char| normalized_char(c))
}

/// Whether `c` is a letter of `a-z` or `A-Z`.
pub open spec fn is_letter(c: char) -> bool {
    ('a' <= c && c <= 'z') || ('A' <= c && c <= 'Z')
}

/// Whether `c` is a decimal digit.
pub open spec fn is_digit(c: char) -> bool {
    '0' <= c && c <= '9'
}

/// Whether `c` may stand in a namespace: a letter, a digit or a hyphen.
pub open spec fn is_label_char(c: char) -> bool {
    is_letter(c) || is_digit(c) || c == '-'
}

/// Whether `name` holds two hyphens in a row.
pub open spec fn has_double_hyphen(name: Seq<char>) -> bool {
    exists|i: int| 0 <= i && i + 1 < name.len() && #[trigger] name[i] == '-' && name[i + 1] == '-'
}

/// Whether `name` holds a character that may not stand in a namespace.
pub open spec fn has_foreign_char(name: Seq<char>) -> bool {
    exists|i: int| 0 <= i < name.len() && !is_label_char(#[trigger] name[i])
}

/// Whether `name` holds a letter.
pub open spec fn has_letter(name: Seq<char>) -> bool {
    exists|i: int| 0 <= i < name.len() && is_letter(#[trigger] name[i])
}

/// Whether `name` is a namespace: 1 to 15 characters, each a letter, a digit
/// or a hyphen, no hyphen at either end, no two hyphens in a row, and at
/// least one letter.
pub open spec fn is_namespace(name: Seq<char>) -> bool {
    &&& 1 <= name.len() <= MAX_NAME_LENGTH
    &&& forall|i: int| 0 <= i < name.len() ==> is_label_char(#[trigger] name[i])
    &&& name[0] != '-'
    &&& name.last() != '-'
    &&& !has_double_hyphen(name)
    &&& has_letter(name)
}

/// The first rule that the normalized name `name` breaks, the rules taken in
/// the order of [`NameError`]; `None` where it breaks none.
pub open spec fn name_violation(name: Seq<char>) -> Option<NameError> {
    if name.len() > 0 && name[0] == '-' {
        Some(NameError::LeadingHyphen)
    } else if name.len() > 0 && name.last() == '-' {
        Some(NameError::TrailingHyphen)
    } else if has_double_hyphen(name) {
        Some(NameError::DoubleHyphen)
    } else if encode_utf8(name).len() > MAX_NAME_LENGTH {
        Some(NameError::TooLong)
    } else if name.len() == 0 {
        Some(NameError::Empty)
    } else if has_foreign_char(name) {
        Some(NameError::InvalidCharacter)
    } else if !has_letter(name) {
        Some(NameError::NoLetter)
    } else {
        None
    }
}

/// What validation makes of the raw name `name`: its normalized form, or the
/// first rule that the normalized form breaks.
pub open spec fn validated(name: Seq<char>) -> Result<Seq<char>, NameError> {
    match name_violation(normalized(name)) {
        Some(error) => Err(error),
        None => Ok(normalized(name)),
    }
}

/// A name whose characters may all stand in a namespace takes one byte for each
/// character.
pub proof fn lemma_label_chars_are_bytes(name: Seq<char>)
    requires
        !has_foreign_char(name),
    ensures
        encode_utf8(name).len() == name.len(),
{
    assert forall|i: int| 0 <= i < name.len() implies '\0' <= #[trigger] name[i] <= '\u{7f}' by {
        assert(is_label_char(name[i]));
    }
    is_ascii_chars_encode_utf8(name);
}

/// A normalized name breaks no rule if and only if it is a namespace.
pub proof fn lemma_no_violation_iff_namespace(name: Seq<char>)
    ensures
        name_violation(name) is None <==> is_namespace(name),
{
    if name_violation(name) is None {
        lemma_label_chars_are_bytes(name);
    }
    if is_namespace(name) {
        assert(!has_foreign_char(name));
        lemma_label_chars_are_bytes(name);
    }
}

/// Normalization leaves the length in bytes unchanged.
pub proof fn lemma_normalized_byte_length(name: Seq<char>)
    ensures
        encode_utf8(normalized(name)).len() == encode_utf8(name).len(),
    decreases name.len(),
{
    if name.len() > 0 {
        let rest = name.drop_first();
        lemma_normalized_byte_length(rest);
        assert(normalized(name).drop_first() =~= normalized(rest));
        assert(has_width_1_encoding('_' as u32));
        assert(has_width_1_encoding('-' as u32));
    } else {
        assert(normalized(name) =~= name);
    }
}

/// Normalizing a normalized name changes nothing.
pub proof fn lemma_normalized_twice(name: Seq<char>)
    ensures
        normalized(normalized(name)) == normalized(name),
{
    let once = normalized(name);
    assert forall|i: int| 0 <= i < once.len() implies normalized(once)[i] == once[i] by {
        assert(once[i] == normalized_char(name[i]));
    }
    assert(normalized(once) =~= once);
}

/// Validation succeeds on every name whose normalized form is a namespace,
/// and returns that form; applied to what it returned, it returns the same
/// again.
pub proof fn lemma_validation_is_idempotent(name: Seq<char>)
    requires
        is_namespace(normalized(name)),
    ensures
        validated(name) == Ok::<Seq<char>, NameError>(normalized(name)),
        validated(normalized(name)) == validated(name),
{
    lemma_no_violation_iff_namespace(normalized(name));
    lemma_normalized_twice(name);
}

/// Validation refuses every name whose normalized form is not a namespace,
/// with the first rule that the form breaks.
pub proof fn lemma_validation_refuses_the_rest(name: Seq<char>)
    requires
        !is_namespace(normalized(name)),
    ensures
        name_violation(normalized(name)) is Some,
        validated(name) == Err::<Seq<char>, NameError>(name_violation(normalized(name))->Some_0),
{
    lemma_no_violation_iff_namespace(normalized(name));
}

fn is_letter_char(c: char) -> (letter: bool)
    ensures
        letter == is_letter(c),
{
    (c >= 'a' && c <= 'z') || (c >= 'A' && c <= 'Z')
}

fn is_digit_char(c: char) -> (digit: bool)
    ensures
        digit == is_digit(c),
{
    c >= '0' && c <= '9'
}

/// The characters of `name`, normalized.
fn normalized_chars(name: &str) -> (chars: Vec<char>)
    ensures
        chars@ == normalized(name@),
{
    let mut chars: Vec<char> = Vec::new();
    for c in it: name.chars()
        invariant
            it.seq() == name@,
            chars@ == normalized(name@.take(it.index() as int)),
    {
        assert(name@.take(it.index() + 1) =~= name@.take(it.index() as int).push(c));
        assert(normalized(name@.take(it.index() + 1)) =~= normalized(
            name@.take(it.index() as int),
        ).push(normalized_char(c)));
        if c == '_' {
            chars.push('-');
        } else {
            chars.push(c);
        }
    }
    assert(name@.take(name@.len() as int) =~= name@);
    chars
}

/// The normalized form of `name`, whose normalized characters are `chars`.
fn normalized_string(name: &str, chars: &Vec<char>) -> (text: String)
    requires
        chars@ == normalized(name@),
    ensures
        text@ == normalized(name@),
{
    proof {
        reveal_strlit("-");
    }
    let mut text = String::new();
    let mut index: usize = 0;
    while index < chars.len()
        invariant
            index <= chars.len(),
            chars@ == normalized(name@),
            text@ == chars@.take(index as int),
            "-"@ == seq!['-'],
        decreases chars.len() - index,
    {
        if chars[index] == '-' {
            text.append("-");
        } else {
            text.append(name.substring_char(index, index + 1));
            assert(name@.subrange(index as int, index + 1) =~= seq![chars@[index as int]]);
        }
        assert(text@ =~= chars@.take(index + 1));
        index += 1;
    }
    assert(chars@.take(index as int) =~= chars@);
    text
}

/// Checks `name` against the rules for a namespace, underscores counting as
/// hyphens, and returns its normalized form.
#[verifier::loop_isolation(false)]
pub fn check_name(name: &str) -> (checked: Result<String, NameError>)
    ensures
        match checked {
            Ok(namespace) => validated(name@) == Ok::<Seq<char>, NameError>(namespace@),
            Err(error) => validated(name@) == Err::<Seq<char>, NameError>(error),
        },
{
    let chars = normalized_chars(name);
    let count = chars.len();
    if count > 0 && chars[0] == '-' {
        return Err(NameError::LeadingHyphen);
    }
    if count > 0 && chars[count - 1] == '-' {
        return Err(NameError::TrailingHyphen);
    }
    let mut index: usize = 1;
    while index < count
        invariant
            1 <= index,
            count == chars.len(),
            forall|i: int|
                0 <= i && i + 1 < index ==> !(#[trigger] chars@[i] == '-' && chars@[i + 1] == '-'),
        decreases count - index,
    {
        if chars[index - 1] == '-' && chars[index] == '-' {
            return Err(NameError::DoubleHyphen);
        }
        index += 1;
    }
    assert(!has_double_hyphen(chars@));
    proof {
        lemma_normalized_byte_length(name@);
    }
    if name.as_bytes().len() > MAX_NAME_LENGTH {
        return Err(NameError::TooLong);
    }
    if count == 0 {
        return Err(NameError::Empty);
    }
    let mut index: usize = 0;
    let mut letter_at: Option<usize> = None;
    while index < count
        invariant
            index <= count,
            count == chars.len(),
            forall|i: int| 0 <= i < index ==> is_label_char(#[trigger] chars@[i]),
            match letter_at {
                Some(at) => at < index && is_letter(chars@[at as int]),
                None => forall|i: int| 0 <= i < index ==> !is_letter(#[trigger] chars@[i]),
            },
        decreases count - index,
    {
        let c = chars[index];
        let letter = is_letter_char(c);
        if !(letter || is_digit_char(c) || c == '-') {
            assert(!is_label_char(chars@[index as int]));
            return Err(NameError::InvalidCharacter);
        }
        if letter && letter_at.is_none() {
            letter_at = Some(index);
        }
        index += 1;
    }
    assert(!has_foreign_char(chars@));
    if letter_at.is_none() {
        return Err(NameError::NoLetter);
    }
    Ok(normalized_string(name, &chars))
}

/// The normalized form of `name`, which must meet the rules for a namespace.
/// Use [`check_name`] for a name that may not.
pub fn validate_name(name: &str) -> (namespace: String)
    requires
        validated(name@) is Ok,
    ensures
        validated(name@) == Ok::<Seq<char>, NameError>(namespace@),
        is_namespace(namespace@),
{
    proof {
        lemma_no_violation_iff_namespace(normalized(name@));
    }
    let chars = normalized_chars(name);
    normalized_string(name, &chars)
}

/// What follows the namespace in a service type: the protocol and the local
/// domain.
pub open spec fn service_domain() -> Seq<char> {
    seq!['.', '_', 'u', 'd', 'p', '.', 'l', 'o', 'c', 'a', 'l', '.']
}

/// The service type under which the servers of `namespace` are advertised
/// and browsed: an underscore, the namespace, then `._udp.local.`.
pub open spec fn service_type_of(namespace: Seq<char>) -> Seq<char> {
    seq!['_'] + namespace + service_domain()
}

/// The service type under which the servers of `namespace` are advertised
/// and browsed.
pub fn service_type(namespace: &str) -> (service: String)
    ensures
        service@ == service_type_of(namespace@),
{
    proof {
        reveal_strlit("_");
        reveal_strlit("._udp.local.");
    }
    let service = String::from_str("_").concat(namespace).concat("._udp.local.");
    assert("_"@ =~= seq!['_']);
    assert("._udp.local."@ =~= service_domain());
    service
}

impl NameError {
    /// A sentence that says which rule was broken.
    pub fn message(&self) -> (text: &'static str)
        ensures
            text@ == match *self {
                NameError::LeadingHyphen => "Name cannot start with hyphen or underscore"@,
                NameError::TrailingHyphen => "Name cannot end with hyphen or underscore"@,
                NameError::DoubleHyphen => "Name cannot contains double hyphens or double underscores"@,
                NameError::TooLong => "Name cannot be longer than 15 bytes"@,
                NameError::Empty => "Name cannot be empty"@,
                NameError::InvalidCharacter => "Name can only contain a-zA-Z, hyphens ('-') and underscores ('_')"@,
                NameError::NoLetter => "Name must contains at least one letter (a-zA-Z)"@,
            },
    {
        match self {
            NameError::LeadingHyphen => "Name cannot start with hyphen or underscore",
            NameError::TrailingHyphen => "Name cannot end with hyphen or underscore",
            NameError::DoubleHyphen => "Name cannot contains double hyphens or double underscores",
            NameError::TooLong => "Name cannot be longer than 15 bytes",
            NameError::Empty => "Name cannot be empty",
            NameError::InvalidCharacter => "Name can only contain a-zA-Z, hyphens ('-') and underscores ('_')",
            NameError::NoLetter => "Name must contains at least one letter (a-zA-Z)",
        }
    }
}

} // verus!
