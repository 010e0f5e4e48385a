//! The coding assistant that rules, commands and plugins are written for.

use vstd::prelude::*;

use crate::text::cat2;
use crate::text::cat3;
use crate::text::chars_of;

verus! {

/// `c` with a small ASCII letter made a capital.
pub open spec fn upper(c: char) -> char {
    if 'a' <= c <= 'z' {
        (c as u32 - 32) as char
    } else {
        c
    }
}

/// `s` with small ASCII letters made capitals.
pub open spec fn uppercase(s: Seq<char>) -> Seq<char> {
    Seq::new(s.len(), |i: int| upper(s[i]))
}

/// `s` with its first letter made a capital.
pub open spec fn capitalized(s: Seq<char>) -> Seq<char> {
    Seq::new(
        s.len(),
        |i: int|
            if i == 0 {
                upper(s[i])
            } else {
                s[i]
            },
    )
}

/// The directory that holds the settings of the assistant `name`.
pub open spec fn settings_dir(name: Seq<char>) -> Seq<char> {
    "."@ + name
}

/// The directory of the assistant's rules, below a project.
pub open spec fn rules_part(name: Seq<char>) -> Seq<char> {
    "."@ + name + "/rules"@
}

/// The directory of the assistant's commands, below a project.
pub open spec fn commands_part(name: Seq<char>) -> Seq<char> {
    "."@ + name + "/commands"@
}

/// The directory that describes a plugin of the assistant.
pub open spec fn plugin_part(name: Seq<char>) -> Seq<char> {
    "."@ + name + "-plugin"@
}

/// The file that the assistant reads first in a project.
pub open spec fn guide_part(name: Seq<char>) -> Seq<char> {
    uppercase(name) + ".md"@
}

/// What the assistant is called in messages.
pub open spec fn product(name: Seq<char>) -> Seq<char> {
    capitalized(name) + " Code"@
}

/// A coding assistant, by the name of its command.
#[derive(Debug, Clone)]
pub struct Assistant {
    pub name: String,
}

fn upper_char(c: char) -> (r: char)
    ensures
        r == upper(c),
{
    if 'a' <= c && c <= 'z' {
        (c as u8 - 32) as char
    } else {
        c
    }
}

impl Assistant {
    /// The assistant with the given command.
    pub fn new(name: &str) -> (r: Assistant)
        ensures
            r.name@ == name@,
    {
        Assistant { name: name.to_owned() }
    }

    /// The directory that holds the settings of the assistant.
    pub fn settings_dir(&self) -> (r: String)
        ensures
            r@ == settings_dir(self.name@),
    {
        cat2(".", self.name.as_str())
    }

    /// The directory of the assistant's rules, below a project.
    pub fn rules_part(&self) -> (r: String)
        ensures
            r@ == rules_part(self.name@),
    {
        cat3(".", self.name.as_str(), "/rules")
    }

    /// The directory of the assistant's commands, below a project.
    pub fn commands_part(&self) -> (r: String)
        ensures
            r@ == commands_part(self.name@),
    {
        cat3(".", self.name.as_str(), "/commands")
    }

    /// The directory that describes a plugin of the assistant.
    pub fn plugin_part(&self) -> (r: String)
        ensures
            r@ == plugin_part(self.name@),
    {
        cat3(".", self.name.as_str(), "-plugin")
    }

    /// The file that the assistant reads first in a project.
    pub fn guide_part(&self) -> (r: String)
        ensures
            r@ == guide_part(self.name@),
    {
        let cs = chars_of(self.name.as_str());
        let mut out = String::new();
        let mut i: usize = 0;
        while i < cs.len()
            invariant
                i <= cs.len(),
                cs@ == self.name@,
                out@ == uppercase(cs@.take(i as int)),
            decreases cs.len() - i,
        {
            let c: char = upper_char(cs[i]);
            out.push(c);
            proof {
                assert(uppercase(cs@.take(i + 1)) =~= uppercase(cs@.take(i as int)).push(c));
            }
            i = i + 1;
        }
        proof {
            assert(cs@.take(cs@.len() as int) =~= cs@);
        }
        out.append(".md");
        out
    }

    /// What the assistant is called in messages.
    pub fn product(&self) -> (r: String)
        ensures
            r@ == product(self.name@),
    {
        let cs = chars_of(self.name.as_str());
        let mut out = String::new();
        let mut i: usize = 0;
        while i < cs.len()
            invariant
                i <= cs.len(),
                cs@ == self.name@,
                out@ == capitalized(cs@.take(i as int)),
            decreases cs.len() - i,
        {
            let c: char = if i == 0 {
                upper_char(cs[i])
            } else {
                cs[i]
            };
            out.push(c);
            proof {
                assert(capitalized(cs@.take(i + 1)) =~= capitalized(cs@.take(i as int)).push(c));
            }
            i = i + 1;
        }
        proof {
            assert(cs@.take(cs@.len() as int) =~= cs@);
        }
        out.append(" Code");
        out
    }
}

/// Small letters become capitals, and nothing else changes.
pub proof fn law_only_small_letters_are_raised(s: Seq<char>, i: int)
    requires
        0 <= i < s.len(),
    ensures
        uppercase(s).len() == s.len(),
        capitalized(s).len() == s.len(),
        'a' <= s[i] <= 'z' ==> 'A' <= uppercase(s)[i] <= 'Z' && uppercase(s)[i] as u32 - 'A' as u32
            == s[i] as u32 - 'a' as u32,
        !('a' <= s[i] <= 'z') ==> uppercase(s)[i] == s[i],
        capitalized(s)[0] == uppercase(s)[0],
        i > 0 ==> capitalized(s)[i] == s[i],
{
}

/// The names of files and directories begin with the name of the assistant, so
/// that different assistants have different ones.
pub proof fn law_assistants_have_places_of_their_own(a: Seq<char>, b: Seq<char>)
    ensures
        settings_dir(a) == settings_dir(b) ==> a == b,
        rules_part(a) == rules_part(b) ==> a == b,
        commands_part(a) == commands_part(b) ==> a == b,
        plugin_part(a) == plugin_part(b) ==> a == b,
        settings_dir(a).skip(1) == a,
        rules_part(a).subrange(1, 1 + a.len() as int) == a,
{
    reveal_strlit(".");
    assert(settings_dir(a).skip(1) =~= a);
    assert(settings_dir(b).skip(1) =~= b);
    assert(rules_part(a).subrange(1, 1 + a.len() as int) =~= a);
    assert(rules_part(b).subrange(1, 1 + b.len() as int) =~= b);
    assert(commands_part(a).subrange(1, 1 + a.len() as int) =~= a);
    assert(commands_part(b).subrange(1, 1 + b.len() as int) =~= b);
    assert(plugin_part(a).subrange(1, 1 + a.len() as int) =~= a);
    assert(plugin_part(b).subrange(1, 1 + b.len() as int) =~= b);
    if rules_part(a) == rules_part(b) {
        assert(rules_part(a).len() == rules_part(b).len());
    }
    if commands_part(a) == commands_part(b) {
        assert(commands_part(a).len() == commands_part(b).len());
    }
    if plugin_part(a) == plugin_part(b) {
        assert(plugin_part(a).len() == plugin_part(b).len());
    }
}

} // verus!
