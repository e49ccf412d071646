//! Device identity: a stable UUID and a display name. The application
//! persists it; this module holds the naming rules.

use vstd::prelude::*;
use vstd::string::*;

use crate::error::NetworkError;
use crate::message::TextInput;
use crate::naming::{random_name, random_name_view};
use crate::text::{chars_of, string_from_chars, take_view, trim_chars, trim_view};

verus! {

broadcast use vstd::string::group_string_axioms;

/// The longest display name, in characters (Unicode scalar values).
pub const NAME_MAX_LEN: usize = 32;

/// A name cut to `max_len` characters, with `…` appended when it was longer.
pub open spec fn truncate_name_view(name: Seq<char>, max_len: nat) -> Seq<char> {
    if name.len() > max_len {
        name.take(max_len as int).push('\u{2026}')
    } else {
        name
    }
}

/// Truncates a name to `max_len` characters, appending `…` when cut.
pub fn truncate_name(name: &str, max_len: usize) -> (r: String)
    ensures
        r@ == truncate_name_view(name@, max_len as nat),
{
    let cs = chars_of(name);
    if cs.len() > max_len {
        let mut out: Vec<char> = Vec::new();
        let mut i: usize = 0;
        while i < max_len
            invariant
                i <= max_len < cs@.len(),
                out@ == cs@.take(i as int),
            decreases max_len - i,
        {
            out.push(cs[i]);
            i = i + 1;
            assert(out@ =~= cs@.take(i as int));
        }
        out.push('\u{2026}');
        string_from_chars(out.as_slice())
    } else {
        String::from_str(name)
    }
}

/// A lower-case hexadecimal digit.
pub open spec fn is_lower_hex(c: char) -> bool {
    ('0' <= c && c <= '9') || ('a' <= c && c <= 'f')
}

/// The hyphenated text of a version-4 UUID: 36 characters, hyphens at 8,
/// 13, 18 and 23, lower-case hex digits elsewhere, version digit `4` at 14
/// and a variant digit `8`, `9`, `a` or `b` at 19.
pub open spec fn uuid_v4_text(s: Seq<char>) -> bool {
    &&& s.len() == 36
    &&& forall|i: int|
        0 <= i < 36 ==> if i == 8 || i == 13 || i == 18 || i == 23 {
            #[trigger] s[i] == '-'
        } else {
            is_lower_hex(s[i])
        }
    &&& s[14] == '4'
    &&& (s[19] == '8' || s[19] == '9' || s[19] == 'a' || s[19] == 'b')
}

/// `Uuid::new_v4().to_string()`: random bits with the version set to 4
/// and the RFC 4122 variant, in the lower-case hyphenated form that `Uuid`'s
/// `Display` writes. Which digits come out is random.
#[verifier::external_body]
fn new_uuid_v4() -> (s: String)
    ensures
        uuid_v4_text(s@),
{
    uuid::Uuid::new_v4().to_string()
}

/// This device's identity.
#[derive(Debug, Clone, PartialEq, Eq)]
pub struct DeviceIdentity {
    /// Stable UUID (kept once persisted).
    pub uuid: String,
    /// Display name (random by default, user can rename).
    pub name: String,
}

/// Why a new name is refused, if it is: blank after trimming, or longer than
/// [`NAME_MAX_LEN`] characters after trimming.
pub open spec fn rename_refused(new_name: Seq<char>) -> bool {
    trim_view(new_name).len() == 0 || trim_view(new_name).len() > NAME_MAX_LEN
}

impl DeviceIdentity {
    /// A fresh identity: a random UUID and a random default name.
    pub fn generate() -> (id: Self)
        ensures
            uuid_v4_text(id.uuid@),
            random_name_view(id.name@),
    {
        DeviceIdentity { uuid: new_uuid_v4(), name: random_name() }
    }

    /// Renames the device to the trimmed new name. A blank name or one
    /// longer than 32 characters is refused and leaves the identity as it
    /// was. (The application writes the identity back to disk.)
    pub fn rename<T: TextInput>(&mut self, new_name: T) -> (r: Result<(), NetworkError>)
        ensures
            r is Ok <==> !rename_refused(new_name.text_view()),
            r is Ok ==> final(self).name@ == trim_view(new_name.text_view()) && final(self).uuid
                == old(self).uuid,
            r matches Err(e) ==> e is InvalidName && *final(self) == *old(self),
    {
        let ghost input = new_name.text_view();
        let name: String = new_name.into_text();
        let cs = chars_of(name.as_str());
        let trimmed = trim_chars(cs.as_slice());
        if trimmed.len() == 0 {
            return Err(NetworkError::InvalidName(String::from_str("名称不能为空")));
        }
        if trimmed.len() > NAME_MAX_LEN {
            return Err(NetworkError::InvalidName(String::from_str("名称不能超过 32 个字符")));
        }
        self.name = string_from_chars(trimmed.as_slice());
        Ok(())
    }
}

} // verus!
