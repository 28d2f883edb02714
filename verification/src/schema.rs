//! Names in the store's schema: the table of a user's snapshots.

use crate::address::{base58_text, Address};
use vstd::prelude::*;

verus! {

/// Why no table can be named after a text.
#[derive(Clone, Copy, Debug, PartialEq, Eq)]
pub enum SchemaError {
    /// The text holds a character that has no place in an identifier.
    UnsafeCharacter,
}

/// Whether a character may stand in an identifier: a letter or a digit of
/// ASCII, or the underscore.
pub open spec fn is_identifier_char(c: char) -> bool {
    ('a' <= c && c <= 'z') || ('A' <= c && c <= 'Z') || ('0' <= c && c <= '9') || c == '_'
}

/// The character that stands for `c` in an identifier: the underscore for a
/// point or a hyphen, else `c` itself.
pub open spec fn sanitized_char(c: char) -> char {
    if c == '.' || c == '-' {
        '_'
    } else {
        c
    }
}

/// A text with every point and hyphen replaced by an underscore.
pub open spec fn sanitized(text: Seq<char>) -> Seq<char> {
    Seq::new(text.len(), |i: int| sanitized_char(text[i]))
}

/// Whether a table can be named after a text: once points and hyphens are
/// replaced, only identifier characters remain.
pub open spec fn is_safe(text: Seq<char>) -> bool {
    forall|i: int| 0 <= i < text.len() ==> is_identifier_char(sanitized_char(#[trigger] text[i]))
}

/// The name of the table of the user with this text.
pub open spec fn table_name(text: Seq<char>) -> Seq<char> {
    "user_"@ + sanitized(text)
}

/// The name of the table that holds the snapshots of `user`: `user_` and
/// the text with points and hyphens replaced. A text with any other
/// character that is unsafe in an identifier is refused.
pub fn user_table_name(user: &str) -> (r: Result<String, SchemaError>)
    ensures
        match r {
            Ok(name) => is_safe(user@) && name@ == table_name(user@),
            Err(SchemaError::UnsafeCharacter) => !is_safe(user@),
        },
{
    if !user.is_ascii() {
        return Err(SchemaError::UnsafeCharacter);
    }
    let bytes = user.as_bytes();
    proof {
        vstd::string::is_ascii_spec_bytes(user);
        reveal_strlit("_");
    }
    let n = bytes.len();
    let mut name = String::from_str("user_");
    let mut i: usize = 0;
    assert(sanitized(user@).take(0) =~= Seq::<char>::empty());
    assert(name@ =~= "user_"@ + sanitized(user@).take(0));
    while i < n
        invariant
            i <= n,
            n == user@.len(),
            n == bytes@.len(),
            user.is_ascii(),
            "_"@ == seq!['_'],
            forall|j: int| 0 <= j < n ==> bytes@[j] == (#[trigger] user@[j]) as u8,
            forall|j: int| 0 <= j < i ==> is_identifier_char(sanitized_char(#[trigger] user@[j])),
            name@ == "user_"@ + sanitized(user@).take(i as int),
        decreases n - i,
    {
        let b = bytes[i];
        let ghost c = user@[i as int];
        assert('\0' <= c <= '\u{7f}');
        let ghost before = name@;
        if b == 46 || b == 45 {
            assert(c == '.' || c == '-');
            name.append("_");
            assert(name@ =~= before + seq![sanitized_char(c)]);
        } else if (97 <= b && b <= 122) || (65 <= b && b <= 90) || (48 <= b && b <= 57) || b == 95 {
            assert(is_identifier_char(c));
            let piece = user.substring_ascii(i, i + 1);
            assert(piece@ =~= seq![c]);
            name.append(piece);
            assert(name@ =~= before + seq![sanitized_char(c)]);
        } else {
            assert(!is_identifier_char(sanitized_char(c)));
            return Err(SchemaError::UnsafeCharacter);
        }
        assert(sanitized(user@).take(i + 1) =~= sanitized(user@).take(i as int).push(
            sanitized_char(c),
        ));
        assert(name@ =~= "user_"@ + sanitized(user@).take(i + 1));
        i += 1;
    }
    assert(sanitized(user@).take(n as int) =~= sanitized(user@));
    Ok(name)
}

/// The name of the table that holds the snapshots of the user at `user`.
pub fn address_table_name(user: &Address) -> (r: Result<String, SchemaError>)
    ensures
        match r {
            Ok(name) => is_safe(base58_text(user@)) && name@ == table_name(base58_text(user@)),
            Err(SchemaError::UnsafeCharacter) => !is_safe(base58_text(user@)),
        },
{
    let text = user.to_text();
    user_table_name(text.as_str())
}

} // verus!
