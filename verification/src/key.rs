//! The keys of a descriptor that carry meaning for the library.

use vstd::prelude::*;

verus! {

/// A key with a meaning. The standard keys keep their standard names; the
/// others are extension keys.
#[derive(Clone, Copy, Debug, PartialEq, Eq, Structural)]
pub enum Key {
    /// Marks a descriptor as written by this application.
    Owned,
    Name,
    Exec,
    Icon,
    Categories,
    Comment,
    Id,
    Version,
    Url,
    BrowserId,
    Isolate,
    Maximize,
    Profile,
}

/// The name under which a key stands in the descriptor.
pub open spec fn key_name(key: Key) -> Seq<char> {
    match key {
        Key::Owned => "X-WebApp"@,
        Key::Name => "Name"@,
        Key::Exec => "Exec"@,
        Key::Icon => "Icon"@,
        Key::Categories => "Categories"@,
        Key::Comment => "Comment"@,
        Key::Id => "X-WebApp-Id"@,
        Key::Version => "X-WebApp-Version"@,
        Key::Url => "X-WebApp-Url"@,
        Key::BrowserId => "X-WebApp-Browser"@,
        Key::Isolate => "X-WebApp-Isolate"@,
        Key::Maximize => "X-WebApp-Maximize"@,
        Key::Profile => "X-WebApp-Profile"@,
    }
}

impl Key {
    /// The name under which the key stands in the descriptor.
    pub fn as_str(&self) -> (r: &'static str)
        ensures
            r@ == key_name(*self),
    {
        match self {
            Key::Owned => "X-WebApp",
            Key::Name => "Name",
            Key::Exec => "Exec",
            Key::Icon => "Icon",
            Key::Categories => "Categories",
            Key::Comment => "Comment",
            Key::Id => "X-WebApp-Id",
            Key::Version => "X-WebApp-Version",
            Key::Url => "X-WebApp-Url",
            Key::BrowserId => "X-WebApp-Browser",
            Key::Isolate => "X-WebApp-Isolate",
            Key::Maximize => "X-WebApp-Maximize",
            Key::Profile => "X-WebApp-Profile",
        }
    }

    /// The name of the key as an owned text.
    pub fn to_string(&self) -> (r: String)
        ensures
            r@ == key_name(*self),
    {
        self.as_str().to_owned()
    }
}

/// Makes the characters of every key name known.
pub proof fn lemma_reveal_key_names()
    ensures
        key_name(Key::Owned).len() == 8,
        key_name(Key::Name).len() == 4,
        key_name(Key::Exec).len() == 4,
        key_name(Key::Icon).len() == 4,
        key_name(Key::Categories).len() == 10,
        key_name(Key::Comment).len() == 7,
        key_name(Key::Id).len() == 11,
        key_name(Key::Version).len() == 16,
        key_name(Key::Url).len() == 12,
        key_name(Key::BrowserId).len() == 16,
        key_name(Key::Isolate).len() == 16,
        key_name(Key::Maximize).len() == 17,
        key_name(Key::Profile).len() == 16,
        key_name(Key::Name)[0] == 'N',
        key_name(Key::Exec)[0] == 'E',
        key_name(Key::Icon)[0] == 'I',
        key_name(Key::Version)[9] == 'V',
        key_name(Key::BrowserId)[9] == 'B',
        key_name(Key::Isolate)[9] == 'I',
        key_name(Key::Profile)[9] == 'P',
{
    reveal_strlit("X-WebApp");
    reveal_strlit("Name");
    reveal_strlit("Exec");
    reveal_strlit("Icon");
    reveal_strlit("Categories");
    reveal_strlit("Comment");
    reveal_strlit("X-WebApp-Id");
    reveal_strlit("X-WebApp-Version");
    reveal_strlit("X-WebApp-Url");
    reveal_strlit("X-WebApp-Browser");
    reveal_strlit("X-WebApp-Isolate");
    reveal_strlit("X-WebApp-Maximize");
    reveal_strlit("X-WebApp-Profile");
}

/// No key name is empty, holds `=` or a line feed, or starts like a header
/// or a comment.
pub proof fn lemma_key_names_plain(key: Key)
    ensures
        key_name(key).len() > 0,
        key_name(key)[0] != '[',
        key_name(key)[0] != '#',
        forall|i: int|
            0 <= i < key_name(key).len() ==> #[trigger] key_name(key)[i] != '=' && key_name(
                key,
            )[i] != '\n',
{
    lemma_reveal_key_names();
    reveal_strlit("X-WebApp");
    reveal_strlit("Name");
    reveal_strlit("Exec");
    reveal_strlit("Icon");
    reveal_strlit("Categories");
    reveal_strlit("Comment");
    reveal_strlit("X-WebApp-Id");
    reveal_strlit("X-WebApp-Version");
    reveal_strlit("X-WebApp-Url");
    reveal_strlit("X-WebApp-Browser");
    reveal_strlit("X-WebApp-Isolate");
    reveal_strlit("X-WebApp-Maximize");
    reveal_strlit("X-WebApp-Profile");
}

/// Two different keys have different names.
pub proof fn lemma_key_names_differ(a: Key, b: Key)
    requires
        a != b,
    ensures
        key_name(a) != key_name(b),
{
    lemma_reveal_key_names();
}

} // verus!
