use vstd::prelude::*;

verus! {

/// Longest idempotency key accepted, in characters.
pub const MAX_KEY_LEN: usize = 50;

/// Characters a key may hold: ASCII letters and digits, `-`, `_` and `.`.
pub open spec fn is_key_char(c: char) -> bool {
    ('a' <= c && c <= 'z') || ('A' <= c && c <= 'Z') || ('0' <= c && c <= '9') || c == '-'
        || c == '_' || c == '.'
}

/// ASCII whitespace, as removed when a key is trimmed.
pub open spec fn is_blank_char(c: char) -> bool {
    c == ' ' || c == '\t' || c == '\n' || c == '\r' || c == '\x0b' || c == '\x0c'
}

/// Nothing is left once surrounding whitespace is trimmed.
pub open spec fn is_blank(s: Seq<char>) -> bool {
    forall|i: int| 0 <= i < s.len() ==> is_blank_char(#[trigger] s[i])
}

pub open spec fn all_key_chars(s: Seq<char>) -> bool {
    forall|i: int| 0 <= i < s.len() ==> is_key_char(#[trigger] s[i])
}

/// A raw string is a valid key when it is not blank, has at most
/// `MAX_KEY_LEN` characters, and holds only key characters.
pub open spec fn valid_key(s: Seq<char>) -> bool {
    !is_blank(s) && s.len() <= MAX_KEY_LEN && all_key_chars(s)
}

/// Why a raw key was rejected.
#[derive(Debug, Clone, Copy, PartialEq, Eq, Structural)]
pub enum KeyError {
    /// Empty, or whitespace only.
    Blank,
    /// Longer than `MAX_KEY_LEN` characters.
    TooLong,
    /// Holds a character outside the allowed set.
    ForbiddenCharacter,
}

/// The error that `IdempotencyKey::parse` reports for a raw string.
pub open spec fn key_error(s: Seq<char>) -> Option<KeyError> {
    if is_blank(s) {
        Some(KeyError::Blank)
    } else if s.len() > MAX_KEY_LEN {
        Some(KeyError::TooLong)
    } else if !all_key_chars(s) {
        Some(KeyError::ForbiddenCharacter)
    } else {
        None
    }
}

/// A validated client-supplied idempotency key.
#[derive(Debug)]
pub struct IdempotencyKey {
    value: String,
}

impl View for IdempotencyKey {
    type V = Seq<char>;

    closed spec fn view(&self) -> Seq<char> {
        self.value@
    }
}

impl IdempotencyKey {
    #[verifier::type_invariant]
    spec fn inv(self) -> bool {
        valid_key(self.value@)
    }

    /// Validates `raw` and keeps it unchanged as the key.
    pub fn parse(raw: String) -> (r: Result<IdempotencyKey, KeyError>)
        ensures
            key_error(raw@) is None <==> r is Ok,
            r matches Ok(k) ==> k@ == raw@,
            r matches Err(e) ==> key_error(raw@) == Some(e),
    {
        let s = raw.as_str();
        let n = s.unicode_len();
        let mut blank = true;
        let mut allowed = true;
        let mut i: usize = 0;
        while i < n
            invariant
                n == s@.len(),
                s@ == raw@,
                i <= n,
                blank == (forall|j: int| 0 <= j < i ==> is_blank_char(#[trigger] s@[j])),
                allowed == (forall|j: int| 0 <= j < i ==> is_key_char(#[trigger] s@[j])),
            decreases n - i,
        {
            let c = s.get_char(i);
            if !(c == ' ' || c == '\t' || c == '\n' || c == '\r' || c == '\x0b' || c == '\x0c') {
                blank = false;
            }
            if !(('a' <= c && c <= 'z') || ('A' <= c && c <= 'Z') || ('0' <= c && c <= '9')
                || c == '-' || c == '_' || c == '.') {
                allowed = false;
            }
            i = i + 1;
        }
        if blank {
            Err(KeyError::Blank)
        } else if n > MAX_KEY_LEN {
            Err(KeyError::TooLong)
        } else if !allowed {
            Err(KeyError::ForbiddenCharacter)
        } else {
            Ok(IdempotencyKey { value: raw })
        }
    }

    /// The key as text; it is always a valid key.
    pub fn as_str(&self) -> (r: &str)
        ensures
            r@ == self@,
            valid_key(r@),
    {
        proof {
            use_type_invariant(self);
        }
        self.value.as_str()
    }

    /// The key text as an owned string, by reference.
    pub fn as_string(&self) -> (r: &String)
        ensures
            r@ == self@,
            valid_key(r@),
    {
        proof {
            use_type_invariant(self);
        }
        &self.value
    }

    /// An owned copy of the key text.
    pub fn to_text(&self) -> (r: String)
        ensures
            r@ == self@,
    {
        self.value.clone()
    }
}

} // verus!
