//! Per-user storage directories below the shared image root.

use vstd::prelude::*;
use vstd::string::*;

use crate::text::{chars_of, is_ascii_alnum, is_ascii_alnum_char, string_from_chars};

verus! {

/// The rule of user names that a name breaks.
#[derive(Debug, Clone, Copy, PartialEq, Eq, Structural)]
pub enum UserNameRule {
    /// The name is empty.
    Missing,
    /// The name is `.` or `..`.
    Reserved,
    /// The name holds a `/` or a `\`.
    NotSingleComponent,
    /// The name holds a character other than ASCII letters, digits, `.`, `_`, `-`.
    InvalidCharacter,
}

/// A user name that cannot name a storage directory, with the name itself.
#[derive(Debug, Clone)]
pub struct UserNameError {
    pub rule: UserNameRule,
    pub user_name: String,
}

pub open spec fn is_dot_name(s: Seq<char>) -> bool {
    s =~= seq!['.'] || s =~= seq!['.', '.']
}

pub open spec fn is_separator(c: char) -> bool {
    c == '/' || c == '\\'
}

pub open spec fn has_separator(s: Seq<char>) -> bool {
    exists|i: int| 0 <= i < s.len() && is_separator(#[trigger] s[i])
}

pub open spec fn is_user_name_char(c: char) -> bool {
    is_ascii_alnum(c) || c == '_' || c == '-' || c == '.'
}

pub open spec fn all_user_name_chars(s: Seq<char>) -> bool {
    forall|i: int| 0 <= i < s.len() ==> is_user_name_char(#[trigger] s[i])
}

/// The first rule, in the order they are checked, that the name breaks.
pub open spec fn broken_user_name_rule(s: Seq<char>) -> Option<UserNameRule> {
    if s.len() == 0 {
        Some(UserNameRule::Missing)
    } else if is_dot_name(s) {
        Some(UserNameRule::Reserved)
    } else if has_separator(s) {
        Some(UserNameRule::NotSingleComponent)
    } else if !all_user_name_chars(s) {
        Some(UserNameRule::InvalidCharacter)
    } else {
        None
    }
}

/// A name that is exactly one path component: not empty, not `.` or `..`,
/// without separators and made of the allowed characters.
pub open spec fn is_valid_user_name(s: Seq<char>) -> bool {
    broken_user_name_rule(s) is None
}

/// `root` joined with one more component, with `/` between them unless the
/// root is empty or already ends with `/`.
pub open spec fn join_path(root: Seq<char>, name: Seq<char>) -> Seq<char> {
    if root.len() == 0 {
        name
    } else if root.last() == '/' {
        root + name
    } else {
        root + seq!['/'] + name
    }
}

/// Checks that a user name is a single, safe path component.
pub fn validate_user_name(user_name: &str) -> (r: Result<(), UserNameError>)
    ensures
        r is Ok <==> is_valid_user_name(user_name@),
        r matches Err(e) ==> Some(e.rule) == broken_user_name_rule(user_name@)
            && e.user_name@ == user_name@,
{
    let chars = chars_of(user_name);
    let rule = broken_rule(&chars);
    match rule {
        None => Ok(()),
        Some(rule) => Err(UserNameError { rule, user_name: string_from_chars(&chars) }),
    }
}

fn broken_rule(v: &Vec<char>) -> (r: Option<UserNameRule>)
    ensures
        r == broken_user_name_rule(v@),
{
    let n = v.len();
    if n == 0 {
        return Some(UserNameRule::Missing);
    }
    if (n == 1 && v[0] == '.') || (n == 2 && v[0] == '.' && v[1] == '.') {
        proof {
            assert(is_dot_name(v@));
        }
        return Some(UserNameRule::Reserved);
    }
    proof {
        if is_dot_name(v@) {
            if v@ =~= seq!['.'] {
                assert(v@[0] == '.');
            } else {
                assert(v@[0] == '.' && v@[1] == '.');
            }
        }
    }
    let mut i: usize = 0;
    while i < n
        invariant
            i <= n,
            n == v.len(),
            forall|k: int| 0 <= k < i ==> !is_separator(#[trigger] v@[k]),
        decreases n - i,
    {
        if v[i] == '/' || v[i] == '\\' {
            proof {
                assert(is_separator(v@[i as int]));
            }
            return Some(UserNameRule::NotSingleComponent);
        }
        i = i + 1;
    }
    let mut j: usize = 0;
    while j < n
        invariant
            j <= n,
            n == v.len(),
            !has_separator(v@),
            forall|k: int| 0 <= k < j ==> is_user_name_char(#[trigger] v@[k]),
        decreases n - j,
    {
        let c = v[j];
        if !(is_ascii_alnum_char(c) || c == '_' || c == '-' || c == '.') {
            proof {
                assert(!is_user_name_char(v@[j as int]));
            }
            return Some(UserNameRule::InvalidCharacter);
        }
        j = j + 1;
    }
    None
}

/// Joins a valid user name below the shared image root.
pub fn build_user_dir(root: &str, user_name: &str) -> (r: Result<String, UserNameError>)
    ensures
        r is Ok <==> is_valid_user_name(user_name@),
        r matches Ok(path) ==> path@ == join_path(root@, user_name@),
        r matches Err(e) ==> Some(e.rule) == broken_user_name_rule(user_name@)
            && e.user_name@ == user_name@,
{
    match validate_user_name(user_name) {
        Err(e) => Err(e),
        Ok(()) => {
            let root_chars = chars_of(root);
            let mut path = string_from_chars(&root_chars);
            let n = root_chars.len();
            if n > 0 && root_chars[n - 1] != '/' {
                path.push('/');
            }
            path.append(user_name);
            Ok(path)
        },
    }
}

/// A name accepted as a user directory never walks out of the root: it holds
/// no separator and is neither `.` nor `..`, so the joined path is the root
/// followed by exactly one more component.
pub proof fn lemma_user_dir_is_one_component(root: Seq<char>, name: Seq<char>)
    requires
        is_valid_user_name(name),
    ensures
        name.len() > 0,
        !is_dot_name(name),
        forall|i: int| 0 <= i < name.len() ==> !is_separator(#[trigger] name[i]),
        join_path(root, name).len() >= name.len(),
        join_path(root, name).subrange(
            join_path(root, name).len() - name.len(),
            join_path(root, name).len() as int,
        ) == name,
{
    let p = join_path(root, name);
    assert(p.subrange(p.len() - name.len(), p.len() as int) =~= name);
}

/// Position `i` ends a path component: the character before it is not `/`,
/// and it is the end of the path or a `/` follows.
pub open spec fn ends_component(p: Seq<char>, i: int) -> bool {
    &&& 0 < i <= p.len()
    &&& p[i - 1] != '/'
    &&& (i == p.len() || p[i] == '/')
}

/// The prefixes of `p` that end a component among the first `i` positions,
/// shortest first.
pub open spec fn dir_chain_upto(p: Seq<char>, i: nat) -> Seq<Seq<char>>
    decreases i,
{
    if i == 0 {
        Seq::<Seq<char>>::empty()
    } else {
        let rest = dir_chain_upto(p, (i - 1) as nat);
        if ends_component(p, i as int) {
            rest.push(p.take(i as int))
        } else {
            rest
        }
    }
}

/// The directories from the top down to `p` itself: every prefix of `p` that
/// ends a component, shortest first. The root `/` and empty components are
/// not among them.
pub open spec fn dir_chain(p: Seq<char>) -> Seq<Seq<char>> {
    dir_chain_upto(p, p.len())
}

/// The directories to make sure of, top down, so that the directory `path`
/// exists: each ancestor below the root, then `path` itself.
pub fn dirs_to_ensure(path: &str) -> (dirs: Vec<String>)
    ensures
        dirs@.map_values(|d: String| d@) == dir_chain(path@),
{
    let chars = chars_of(path);
    let n = chars.len();
    let mut dirs: Vec<String> = Vec::new();
    let mut current = String::new();
    let mut i: usize = 0;
    while i < n
        invariant
            i <= n,
            n == chars@.len(),
            chars@ == path@,
            current@ == chars@.take(i as int),
            dirs@.map_values(|d: String| d@) == dir_chain_upto(chars@, i as nat),
        decreases n - i,
    {
        let c = chars[i];
        current.push(c);
        proof {
            assert(chars@.take(i + 1) =~= chars@.take(i as int).push(c));
        }
        let ends = c != '/' && (i + 1 == n || chars[i + 1] == '/');
        if ends {
            let d = current.clone();
            let ghost before = dirs@;
            dirs.push(d);
            proof {
                assert(dirs@.map_values(|d: String| d@) =~= before.map_values(|d: String| d@).push(
                    chars@.take(i + 1),
                ));
            }
        }
        i = i + 1;
    }
    dirs
}

/// The chain ends with the directory itself: a path that does not end with
/// `/` is the last directory made sure of, and every directory in the chain
/// is a prefix of the path.
pub proof fn lemma_dir_chain_reaches_path(p: Seq<char>)
    ensures
        forall|k: int|
            0 <= k < dir_chain(p).len() ==> #[trigger] dir_chain(p)[k] == p.take(
                dir_chain(p)[k].len() as int,
            ),
        p.len() > 0 && p.last() != '/' ==> dir_chain(p).len() > 0 && dir_chain(p).last() == p,
{
    lemma_dir_chain_prefixes(p, p.len());
    if p.len() > 0 && p.last() != '/' {
        assert(ends_component(p, p.len() as int));
        assert(p.take(p.len() as int) =~= p);
    }
}

proof fn lemma_dir_chain_prefixes(p: Seq<char>, i: nat)
    requires
        i <= p.len(),
    ensures
        forall|k: int|
            0 <= k < dir_chain_upto(p, i).len() ==> #[trigger] dir_chain_upto(p, i)[k] == p.take(
                dir_chain_upto(p, i)[k].len() as int,
            ),
    decreases i,
{
    if i > 0 {
        lemma_dir_chain_prefixes(p, (i - 1) as nat);
        let rest = dir_chain_upto(p, (i - 1) as nat);
        let all = dir_chain_upto(p, i);
        assert forall|k: int| 0 <= k < all.len() implies #[trigger] all[k] == p.take(
            all[k].len() as int,
        ) by {
            if k < rest.len() {
                assert(all[k] == rest[k]);
            } else {
                assert(all[k] == p.take(i as int));
            }
        }
    }
}

/// A valid user name is exactly a non-empty name, other than `.` and `..`,
/// made of ASCII letters, digits, `.`, `_` and `-`.
pub proof fn lemma_user_name_characters(s: Seq<char>)
    ensures
        is_valid_user_name(s) <==> {
            &&& s.len() > 0
            &&& s != seq!['.']
            &&& s != seq!['.', '.']
            &&& forall|i: int|
                0 <= i < s.len() ==> {
                    let c = #[trigger] s[i];
                    ||| 'a' <= c <= 'z'
                    ||| 'A' <= c <= 'Z'
                    ||| '0' <= c <= '9'
                    ||| c == '.'
                    ||| c == '_'
                    ||| c == '-'
                }
        },
{
    if is_valid_user_name(s) {
        assert(!is_dot_name(s));
    }
    if s.len() > 0 && s != seq!['.'] && s != seq!['.', '.'] {
        assert(!is_dot_name(s));
    }
}

impl UserNameError {
    /// The message that explains the rejection.
    pub fn message(&self) -> (m: String)
        ensures
            m@ == user_name_message(self.rule, self.user_name@),
    {
        match self.rule {
            UserNameRule::Missing => String::from_str("user_name is required"),
            UserNameRule::Reserved => {
                let mut m = String::from_str("user_name cannot be '");
                m.append(self.user_name.as_str());
                m.append("'");
                m
            },
            UserNameRule::NotSingleComponent => String::from_str(
                "user_name must be a single path component",
            ),
            UserNameRule::InvalidCharacter => String::from_str(
                "user_name may only contain ASCII letters, digits, '.', '_' and '-'",
            ),
        }
    }
}

pub open spec fn user_name_message(rule: UserNameRule, name: Seq<char>) -> Seq<char> {
    match rule {
        UserNameRule::Missing => "user_name is required"@,
        UserNameRule::Reserved => "user_name cannot be '"@ + name + "'"@,
        UserNameRule::NotSingleComponent => "user_name must be a single path component"@,
        UserNameRule::InvalidCharacter =>
            "user_name may only contain ASCII letters, digits, '.', '_' and '-'"@,
    }
}

} // verus!
