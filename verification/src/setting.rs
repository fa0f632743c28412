//! The settings file: a JSON document that may name the C compiler and the
//! output file to use by default.

use vstd::prelude::*;
use json::JsonValue;
use crate::compile::charclass::{ascii_digit, is_ascii_digit};
use crate::text::chars_of;

verus! {

/// A JSON value of the `json` crate, carried through as it is.
#[verifier::external_type_specification]
#[verifier::external_body]
pub struct ExJsonValue(json::JsonValue);

/// The error of the `json` crate, carried through as it is.
#[verifier::external_type_specification]
#[verifier::external_body]
pub struct ExJsonError(json::Error);

/// The members of a JSON value that are not null, by their keys: `Some` of
/// the text for a member that is a string, `None` for a member of any other
/// kind. A value that is no object has no members.
pub uninterp spec fn json_members(doc: JsonValue) -> Map<Seq<char>, Option<Seq<char>>>;

/// What `json::parse` makes of a text: the members of the value that it
/// reads, or `None` where the text is no JSON.
pub uninterp spec fn json_parse_members(source: Seq<char>) -> Option<
    Map<Seq<char>, Option<Seq<char>>>,
>;

/// The most digits that a fraction may have in a text that is read as
/// JSON: the parser counts the digits of a fraction in sixteen bits.
pub const FRACTION_LIMIT: usize = 32767;

/// The number of decimal digits that `s` ends with.
pub open spec fn digits_at_end(s: Seq<char>) -> nat
    decreases s.len(),
{
    if s.len() > 0 && is_ascii_digit(s.last()) {
        1 + digits_at_end(s.drop_last())
    } else {
        0
    }
}

/// The number of decimal digits that `s` ends with, where a `.` stands
/// before them; 0 where none does.
pub open spec fn fraction_digits_at_end(s: Seq<char>) -> nat {
    let d = digits_at_end(s);
    if d < s.len() && s[s.len() - d - 1] == '.' {
        d
    } else {
        0
    }
}

/// No run of decimal digits behind a `.` in `s` is longer than `limit`.
pub open spec fn fractions_within(s: Seq<char>, limit: nat) -> bool {
    forall|n: int| 0 <= n <= s.len() ==> fraction_digits_at_end(#[trigger] s.take(n)) <= limit
}

/// `json::parse` reads a text as a JSON value or refuses it. Whether it
/// refuses, and which members the value has, depends on the text alone and
/// is named `json_parse_members`; nothing more is claimed of it. Texts with
/// more than `FRACTION_LIMIT` digits in a row behind a `.` are left out: on
/// a fraction of that many digits the parser's count of them overflows.
pub assume_specification[ json::parse ](source: &str) -> (r: std::result::Result<
    json::JsonValue,
    json::Error,
>)
    requires
        fractions_within(source@, 32767),
    ensures
        match json_parse_members(source@) {
            Some(members) => r matches Ok(doc) && json_members(doc) == members,
            None => r is Err,
        },
;

/// Whether no run of decimal digits behind a `.` in `text` is longer than
/// `FRACTION_LIMIT`.
pub fn has_short_fractions(text: &str) -> (b: bool)
    ensures
        b == fractions_within(text@, FRACTION_LIMIT as nat),
{
    let chars = chars_of(text);
    let ghost s = chars@;
    let mut run: usize = 0;
    let mut after_dot = false;
    let mut i: usize = 0;
    assert(s.take(0) =~= Seq::<char>::empty());
    while i < chars.len()
        invariant
            i <= chars.len(),
            s == chars@,
            s == text@,
            run <= i,
            run == digits_at_end(s.take(i as int)),
            after_dot == (run < i && s[i - run - 1] == '.'),
            forall|n: int|
                0 <= n <= i ==> fraction_digits_at_end(#[trigger] s.take(n)) <= FRACTION_LIMIT,
        decreases chars.len() - i,
    {
        let c = chars[i];
        assert(s.take(i + 1).drop_last() =~= s.take(i as int));
        assert(s.take(i + 1).last() == c);
        if ascii_digit(c) {
            run += 1;
            if after_dot && run > FRACTION_LIMIT {
                assert(fraction_digits_at_end(s.take(i + 1)) > FRACTION_LIMIT);
                return false;
            }
        } else {
            run = 0;
            after_dot = c == '.';
        }
        i += 1;
    }
    true
}

/// A member of the settings, as the rules below read it.
pub enum Member {
    /// The member is missing or null.
    Null,
    /// The member is a string.
    Text(std::string::String),
    /// The member is something else.
    Other,
}

/// Where `m` stands for the entry of `members` at `key`.
pub open spec fn is_member(
    members: Map<Seq<char>, Option<Seq<char>>>,
    key: Seq<char>,
    m: Member,
) -> bool {
    match m {
        Member::Null => !members.contains_key(key),
        Member::Text(s) => members.contains_key(key) && members[key] == Some(s@),
        Member::Other => members.contains_key(key) && members[key] is None,
    }
}

/// Indexing a `JsonValue` of the `json` crate by a key gives the member of
/// an object at that key, and null where the value is no object or has no
/// such member. The result is told apart by its kind: null, a string (short
/// or long) with its text, or anything else.
#[verifier::external_body]
fn member_of(doc: &JsonValue, key: &str) -> (m: Member)
    ensures
        is_member(json_members(*doc), key@, m),
{
    match &doc[key] {
        JsonValue::Null => Member::Null,
        JsonValue::Short(s) => Member::Text(s.as_str().to_string()),
        JsonValue::String(s) => Member::Text(s.clone()),
        _ => Member::Other,
    }
}

/// Why the settings were not taken.
#[derive(Clone, Copy, PartialEq, Eq, Structural, Debug)]
pub enum SettingError {
    /// The text holds a fraction of too many digits to be read.
    NumberTooLong,
    /// The default C compiler is given, but not as a string.
    CcNotText,
    /// The default output file is given, but not as a string.
    OutBinaryNotText,
}

/// The value that a setting has after a member was read: the text of the
/// member where it is one, else the value that it had.
pub open spec fn setting_after(before: Seq<char>, m: Member) -> Seq<char> {
    match m {
        Member::Text(s) => s@,
        _ => before,
    }
}

/// Takes the two members of the settings. A member that is there and is no
/// string is an error, that of the compiler before that of the output
/// file, and then nothing changes. Otherwise each member that is a string
/// replaces the value that was there, and each that is missing or null
/// leaves it.
pub fn apply_setting(
    cc: Member,
    out_binary: Member,
    custom_cc: &mut std::string::String,
    custom_ofile: &mut std::string::String,
) -> (r: Result<(), SettingError>)
    ensures
        if cc is Other {
            &&& r == Err::<(), SettingError>(SettingError::CcNotText)
            &&& final(custom_cc)@ == old(custom_cc)@
            &&& final(custom_ofile)@ == old(custom_ofile)@
        } else if out_binary is Other {
            &&& r == Err::<(), SettingError>(SettingError::OutBinaryNotText)
            &&& final(custom_cc)@ == old(custom_cc)@
            &&& final(custom_ofile)@ == old(custom_ofile)@
        } else {
            &&& r is Ok
            &&& final(custom_cc)@ == setting_after(old(custom_cc)@, cc)
            &&& final(custom_ofile)@ == setting_after(old(custom_ofile)@, out_binary)
        },
{
    if let Member::Other = cc {
        return Err(SettingError::CcNotText);
    }
    if let Member::Other = out_binary {
        return Err(SettingError::OutBinaryNotText);
    }
    match cc {
        Member::Text(s) => {
            *custom_cc = s;
        },
        _ => {},
    }
    match out_binary {
        Member::Text(s) => {
            *custom_ofile = s;
        },
        _ => {},
    }
    Ok(())
}

/// The value that a setting has after the members of the settings were
/// read, where the one at `key` is a string or missing.
pub open spec fn setting_from(
    before: Seq<char>,
    members: Map<Seq<char>, Option<Seq<char>>>,
    key: Seq<char>,
) -> Seq<char> {
    if members.contains_key(key) && members[key] is Some {
        members[key]->0
    } else {
        before
    }
}

/// The member at `key` is there and is no string.
pub open spec fn is_not_text(members: Map<Seq<char>, Option<Seq<char>>>, key: Seq<char>) -> bool {
    members.contains_key(key) && members[key] is None
}

/// Reads the text of the settings file. A text with more than
/// `FRACTION_LIMIT` digits in a row behind a `.` is an error. A text that
/// is no JSON changes
/// nothing. Otherwise the member `DEFAULT_CC` becomes the C compiler and
/// the member `DEFAULT_OUT_BINARY` the output file, each where it is a
/// string; a member that is missing or null leaves the value as it was. A
/// member that is there and is no string is an error, the first of the two
/// in this order. On an error nothing changes.
pub fn read_setting(
    raw: &str,
    custom_cc: &mut std::string::String,
    custom_ofile: &mut std::string::String,
) -> (r: Result<(), SettingError>)
    ensures
        if !fractions_within(raw@, FRACTION_LIMIT as nat) {
            &&& r == Err::<(), SettingError>(SettingError::NumberTooLong)
            &&& final(custom_cc)@ == old(custom_cc)@
            &&& final(custom_ofile)@ == old(custom_ofile)@
        } else {
            match json_parse_members(raw@) {
                None => {
                    &&& r is Ok
                    &&& final(custom_cc)@ == old(custom_cc)@
                    &&& final(custom_ofile)@ == old(custom_ofile)@
                },
                Some(members) => if is_not_text(members, "DEFAULT_CC"@) {
                    &&& r == Err::<(), SettingError>(SettingError::CcNotText)
                    &&& final(custom_cc)@ == old(custom_cc)@
                    &&& final(custom_ofile)@ == old(custom_ofile)@
                } else if is_not_text(members, "DEFAULT_OUT_BINARY"@) {
                    &&& r == Err::<(), SettingError>(SettingError::OutBinaryNotText)
                    &&& final(custom_cc)@ == old(custom_cc)@
                    &&& final(custom_ofile)@ == old(custom_ofile)@
                } else {
                    &&& r is Ok
                    &&& final(custom_cc)@ == setting_from(old(custom_cc)@, members, "DEFAULT_CC"@)
                    &&& final(custom_ofile)@ == setting_from(
                        old(custom_ofile)@,
                        members,
                        "DEFAULT_OUT_BINARY"@,
                    )
                },
            }
        },
{
    if !has_short_fractions(raw) {
        return Err(SettingError::NumberTooLong);
    }
    let doc = match json::parse(raw) {
        Ok(doc) => doc,
        Err(_) => {
            return Ok(());
        },
    };
    let cc = member_of(&doc, "DEFAULT_CC");
    let out_binary = member_of(&doc, "DEFAULT_OUT_BINARY");
    apply_setting(cc, out_binary, custom_cc, custom_ofile)
}

} // verus!
