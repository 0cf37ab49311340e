//! The global hotkey grammar: `Ctrl+Alt+U` and the like.

use vstd::prelude::*;

use crate::text::{
    ascii_upper, chars_of, chars_eq_ignore_ascii_case, eq_ignore_ascii_case, is_ascii_alnum,
    is_ascii_alnum_char, string_from_chars, to_ascii_upper, trim, trim_chars,
    trim_start, is_white_space,
};

verus! {

/// A key combined with at least one of the Ctrl, Alt and Shift modifiers.
#[derive(Debug, Clone, Copy, PartialEq, Eq, Structural)]
pub struct Hotkey {
    pub ctrl: bool,
    pub alt: bool,
    pub shift: bool,
    pub key: char,
}

/// Why a text is not a hotkey.
#[derive(Debug, Clone, Copy, PartialEq, Eq, Structural)]
pub enum HotkeyRule {
    /// A one-character token that is not an ASCII letter or digit.
    KeyNotAlphanumeric,
    /// A token that is neither a modifier nor a single character.
    UnsupportedToken,
    /// No key token.
    MissingKey,
    /// No modifier token.
    MissingModifier,
}

/// A rejected hotkey text: the rule it breaks and, for an unsupported token,
/// that token (trimmed); the token is empty for the other rules.
#[derive(Debug, Clone)]
pub struct HotkeyError {
    pub rule: HotkeyRule,
    pub token: String,
}

/// What one trimmed token of a hotkey text stands for.
#[derive(Debug, Clone, Copy, PartialEq, Eq, Structural)]
pub enum TokenKind {
    Ctrl,
    Alt,
    Shift,
    Key(char),
    NotAlphanumeric,
    Unsupported,
}

/// Modifiers seen so far and the last key seen so far.
pub type Parts = (bool, bool, bool, Option<char>);

pub type Fault = (HotkeyRule, Seq<char>);

pub open spec fn word_ctrl() -> Seq<char> {
    seq!['c', 't', 'r', 'l']
}

pub open spec fn word_control() -> Seq<char> {
    seq!['c', 'o', 'n', 't', 'r', 'o', 'l']
}

pub open spec fn word_alt() -> Seq<char> {
    seq!['a', 'l', 't']
}

pub open spec fn word_shift() -> Seq<char> {
    seq!['s', 'h', 'i', 'f', 't']
}

/// The text cut at every `+`; a text without `+` is one token, and an empty
/// text is one empty token.
pub open spec fn split_plus(s: Seq<char>) -> Seq<Seq<char>>
    decreases s.len(),
{
    if s.len() == 0 {
        seq![Seq::<char>::empty()]
    } else {
        let rest = split_plus(s.drop_last());
        if s.last() == '+' {
            rest.push(Seq::<char>::empty())
        } else {
            rest.update(rest.len() - 1, rest.last().push(s.last()))
        }
    }
}

pub open spec fn classify_token(t: Seq<char>) -> TokenKind {
    if eq_ignore_ascii_case(t, word_ctrl()) || eq_ignore_ascii_case(t, word_control()) {
        TokenKind::Ctrl
    } else if eq_ignore_ascii_case(t, word_alt()) {
        TokenKind::Alt
    } else if eq_ignore_ascii_case(t, word_shift()) {
        TokenKind::Shift
    } else if t.len() == 1 {
        if is_ascii_alnum(t[0]) {
            TokenKind::Key(ascii_upper(t[0]))
        } else {
            TokenKind::NotAlphanumeric
        }
    } else {
        TokenKind::Unsupported
    }
}

/// The effect of one (untrimmed) token on the parts seen so far.
pub open spec fn step_token(st: Parts, raw: Seq<char>) -> Result<Parts, Fault> {
    let t = trim(raw);
    match classify_token(t) {
        TokenKind::Ctrl => Ok((true, st.1, st.2, st.3)),
        TokenKind::Alt => Ok((st.0, true, st.2, st.3)),
        TokenKind::Shift => Ok((st.0, st.1, true, st.3)),
        TokenKind::Key(c) => Ok((st.0, st.1, st.2, Some(c))),
        TokenKind::NotAlphanumeric => Err((HotkeyRule::KeyNotAlphanumeric, Seq::<char>::empty())),
        TokenKind::Unsupported => Err((HotkeyRule::UnsupportedToken, t)),
    }
}

/// The tokens read left to right; the first bad token stops the reading.
pub open spec fn fold_tokens(toks: Seq<Seq<char>>) -> Result<Parts, Fault>
    decreases toks.len(),
{
    if toks.len() == 0 {
        Ok((false, false, false, None))
    } else {
        match fold_tokens(toks.drop_last()) {
            Err(f) => Err(f),
            Ok(st) => step_token(st, toks.last()),
        }
    }
}

/// The hotkey that a text names, or the rule it breaks.
pub open spec fn parse_hotkey(s: Seq<char>) -> Result<Hotkey, Fault> {
    match fold_tokens(split_plus(s)) {
        Err(f) => Err(f),
        Ok(st) => match st.3 {
            None => Err((HotkeyRule::MissingKey, Seq::<char>::empty())),
            Some(key) => if !(st.0 || st.1 || st.2) {
                Err((HotkeyRule::MissingModifier, Seq::<char>::empty()))
            } else {
                Ok(Hotkey { ctrl: st.0, alt: st.1, shift: st.2, key })
            },
        },
    }
}

/// The display text: the modifiers present, in the order Ctrl, Alt, Shift,
/// then the key, joined by `+`.
pub open spec fn hotkey_text(h: Hotkey) -> Seq<char> {
    (if h.ctrl { seq!['C', 't', 'r', 'l', '+'] } else { Seq::<char>::empty() }) + (if h.alt {
        seq!['A', 'l', 't', '+']
    } else {
        Seq::<char>::empty()
    }) + (if h.shift { seq!['S', 'h', 'i', 'f', 't', '+'] } else { Seq::<char>::empty() })
        + seq![h.key]
}

/// A key as the parser hands it out: an upper-case ASCII letter or a digit.
pub open spec fn is_canonical_key(c: char) -> bool {
    ('A' as int <= c as int <= 'Z' as int) || ('0' as int <= c as int <= '9' as int)
}

/// A hotkey that the parser can produce.
pub open spec fn is_canonical(h: Hotkey) -> bool {
    is_canonical_key(h.key) && (h.ctrl || h.alt || h.shift)
}

pub open spec fn error_is(e: HotkeyError, f: Fault) -> bool {
    e.rule == f.0 && e.token@ == f.1
}

pub open spec fn acc_matches(acc: Result<Parts, HotkeyError>, s: Result<Parts, Fault>) -> bool {
    match (acc, s) {
        (Ok(a), Ok(b)) => a == b,
        (Err(e), Err(f)) => error_is(e, f),
        _ => false,
    }
}

fn fault(rule: HotkeyRule) -> (e: HotkeyError)
    ensures
        e.rule == rule,
        e.token@ == Seq::<char>::empty(),
{
    HotkeyError { rule, token: String::new() }
}

fn classify(t: &Vec<char>) -> (k: TokenKind)
    ensures
        k == classify_token(t@),
{
    let ctrl = vec!['c', 't', 'r', 'l'];
    let control = vec!['c', 'o', 'n', 't', 'r', 'o', 'l'];
    let alt = vec!['a', 'l', 't'];
    let shift = vec!['s', 'h', 'i', 'f', 't'];
    proof {
        assert(ctrl@ =~= word_ctrl());
        assert(control@ =~= word_control());
        assert(alt@ =~= word_alt());
        assert(shift@ =~= word_shift());
    }
    if chars_eq_ignore_ascii_case(t, &ctrl) || chars_eq_ignore_ascii_case(t, &control) {
        TokenKind::Ctrl
    } else if chars_eq_ignore_ascii_case(t, &alt) {
        TokenKind::Alt
    } else if chars_eq_ignore_ascii_case(t, &shift) {
        TokenKind::Shift
    } else if t.len() == 1 {
        if is_ascii_alnum_char(t[0]) {
            TokenKind::Key(to_ascii_upper(t[0]))
        } else {
            TokenKind::NotAlphanumeric
        }
    } else {
        TokenKind::Unsupported
    }
}

fn apply_token(st: Parts, raw: &Vec<char>) -> (r: Result<Parts, HotkeyError>)
    ensures
        acc_matches(r, step_token(st, raw@)),
{
    let t = trim_chars(raw);
    match classify(&t) {
        TokenKind::Ctrl => Ok((true, st.1, st.2, st.3)),
        TokenKind::Alt => Ok((st.0, true, st.2, st.3)),
        TokenKind::Shift => Ok((st.0, st.1, true, st.3)),
        TokenKind::Key(c) => Ok((st.0, st.1, st.2, Some(c))),
        TokenKind::NotAlphanumeric => Err(fault(HotkeyRule::KeyNotAlphanumeric)),
        TokenKind::Unsupported => Err(
            HotkeyError { rule: HotkeyRule::UnsupportedToken, token: string_from_chars(&t) },
        ),
    }
}

proof fn lemma_split_nonempty(s: Seq<char>)
    ensures
        split_plus(s).len() >= 1,
    decreases s.len(),
{
    if s.len() > 0 {
        lemma_split_nonempty(s.drop_last());
    }
}


pub open spec fn has_no_plus(w: Seq<char>) -> bool {
    forall|i: int| 0 <= i < w.len() ==> #[trigger] w[i] != '+'
}

proof fn lemma_split_single(w: Seq<char>)
    requires
        has_no_plus(w),
    ensures
        split_plus(w) == seq![w],
    decreases w.len(),
{
    if w.len() > 0 {
        lemma_split_single(w.drop_last());
        assert(w.drop_last().push(w.last()) =~= w);
        assert(split_plus(w) =~= seq![w]);
    } else {
        assert(w =~= Seq::<char>::empty());
    }
}

proof fn lemma_split_concat(a: Seq<char>, b: Seq<char>)
    ensures
        split_plus(a + seq!['+'] + b) == split_plus(a) + split_plus(b),
    decreases b.len(),
{
    let ab = a + seq!['+'] + b;
    if b.len() == 0 {
        assert(ab.drop_last() =~= a);
        assert(split_plus(b) =~= seq![Seq::<char>::empty()]);
        assert(split_plus(ab) =~= split_plus(a) + split_plus(b));
    } else {
        let b1 = b.drop_last();
        lemma_split_concat(a, b1);
        lemma_split_nonempty(b1);
        lemma_split_nonempty(a);
        assert(ab.drop_last() =~= a + seq!['+'] + b1);
        assert(ab.last() == b.last());
        assert(split_plus(ab) =~= split_plus(a) + split_plus(b));
    }
}

proof fn lemma_word_is_token(w: Seq<char>, tail: Seq<char>)
    requires
        has_no_plus(w),
    ensures
        split_plus(w + seq!['+'] + tail) == seq![w] + split_plus(tail),
{
    lemma_split_concat(w, tail);
    lemma_split_single(w);
}

proof fn lemma_untrimmed(w: Seq<char>)
    requires
        w.len() > 0,
        !is_white_space(w[0]),
        !is_white_space(w.last()),
    ensures
        trim(w) == w,
{
    assert(trim_start(w) == w);
}

proof fn lemma_modifier_tokens()
    ensures
        classify_token(trim(seq!['C', 't', 'r', 'l'])) == TokenKind::Ctrl,
        classify_token(trim(seq!['A', 'l', 't'])) == TokenKind::Alt,
        classify_token(trim(seq!['S', 'h', 'i', 'f', 't'])) == TokenKind::Shift,
{
    let c = seq!['C', 't', 'r', 'l'];
    let a = seq!['A', 'l', 't'];
    let s = seq!['S', 'h', 'i', 'f', 't'];
    lemma_untrimmed(c);
    lemma_untrimmed(a);
    lemma_untrimmed(s);
    assert(eq_ignore_ascii_case(c, word_ctrl())) by {
        assert forall|i: int| 0 <= i < c.len() implies crate::text::ascii_lower(#[trigger] c[i])
            == word_ctrl()[i] by {
            if i == 0 {
            } else if i == 1 {
            } else if i == 2 {
            } else {
            }
        }
    }
    assert(eq_ignore_ascii_case(a, word_alt())) by {
        assert forall|i: int| 0 <= i < a.len() implies crate::text::ascii_lower(#[trigger] a[i])
            == word_alt()[i] by {
            if i == 0 {
            } else if i == 1 {
            } else {
            }
        }
    }
    assert(!eq_ignore_ascii_case(a, word_ctrl()));
    assert(!eq_ignore_ascii_case(a, word_control()));
    assert(eq_ignore_ascii_case(s, word_shift())) by {
        assert forall|i: int| 0 <= i < s.len() implies crate::text::ascii_lower(#[trigger] s[i])
            == word_shift()[i] by {
            if i == 0 {
            } else if i == 1 {
            } else if i == 2 {
            } else if i == 3 {
            } else {
            }
        }
    }
    assert(!eq_ignore_ascii_case(s, word_ctrl()));
    assert(!eq_ignore_ascii_case(s, word_control()));
    assert(!eq_ignore_ascii_case(s, word_alt())) ;
}

proof fn lemma_key_token(k: char)
    requires
        is_canonical_key(k),
    ensures
        classify_token(trim(seq![k])) == TokenKind::Key(k),
{
    let t = seq![k];
    lemma_untrimmed(t);
    assert(!eq_ignore_ascii_case(t, word_ctrl()));
    assert(!eq_ignore_ascii_case(t, word_control()));
    assert(!eq_ignore_ascii_case(t, word_alt()));
    assert(!eq_ignore_ascii_case(t, word_shift()));
}

/// Reading back the display text of a hotkey that the parser can produce
/// gives that hotkey again.
pub proof fn lemma_parse_of_text(h: Hotkey)
    requires
        is_canonical(h),
    ensures
        parse_hotkey(hotkey_text(h)) == Ok::<Hotkey, Fault>(h),
{
    let c = seq!['C', 't', 'r', 'l'];
    let a = seq!['A', 'l', 't'];
    let s = seq!['S', 'h', 'i', 'f', 't'];
    let k = seq![h.key];
    lemma_modifier_tokens();
    lemma_key_token(h.key);
    assert(has_no_plus(c));
    assert(has_no_plus(a));
    assert(has_no_plus(s));
    assert(has_no_plus(k));
    lemma_split_single(k);
    // The tokens, from the key backwards.
    let t3 = seq![k];
    let x3 = k;
    let t2 = if h.shift { seq![s] + t3 } else { t3 };
    let x2 = if h.shift { s + seq!['+'] + x3 } else { x3 };
    if h.shift {
        lemma_word_is_token(s, x3);
    }
    let t1 = if h.alt { seq![a] + t2 } else { t2 };
    let x1 = if h.alt { a + seq!['+'] + x2 } else { x2 };
    if h.alt {
        lemma_word_is_token(a, x2);
    }
    let t0 = if h.ctrl { seq![c] + t1 } else { t1 };
    let x0 = if h.ctrl { c + seq!['+'] + x1 } else { x1 };
    if h.ctrl {
        lemma_word_is_token(c, x1);
    }
    assert(split_plus(x0) == t0);
    assert(x0 =~= hotkey_text(h));
    // Reading the tokens, from the front.
    let m0: Seq<Seq<char>> = if h.ctrl { seq![c] } else { seq![] };
    let m1: Seq<Seq<char>> = if h.alt { m0.push(a) } else { m0 };
    let m2: Seq<Seq<char>> = if h.shift { m1.push(s) } else { m1 };
    assert(fold_tokens(Seq::<Seq<char>>::empty()) == Ok::<Parts, Fault>((false, false, false, None)));
    if h.ctrl {
        assert(m0.drop_last() =~= Seq::<Seq<char>>::empty());
    }
    assert(fold_tokens(m0) == Ok::<Parts, Fault>((h.ctrl, false, false, None)));
    if h.alt {
        assert(m1.drop_last() =~= m0);
    }
    assert(fold_tokens(m1) == Ok::<Parts, Fault>((h.ctrl, h.alt, false, None)));
    if h.shift {
        assert(m2.drop_last() =~= m1);
    }
    assert(fold_tokens(m2) == Ok::<Parts, Fault>((h.ctrl, h.alt, h.shift, None)));
    let all = m2.push(k);
    assert(all.drop_last() =~= m2);
    assert(fold_tokens(all) == Ok::<Parts, Fault>((h.ctrl, h.alt, h.shift, Some(h.key))));
    assert(all =~= t0);
}

proof fn lemma_fold_keys_canonical(toks: Seq<Seq<char>>)
    ensures
        fold_tokens(toks) matches Ok(st) ==> (st.3 matches Some(k) ==> is_canonical_key(k)),
    decreases toks.len(),
{
    if toks.len() > 0 {
        lemma_fold_keys_canonical(toks.drop_last());
    }
}

/// A hotkey read from any text is one that the parser can produce, so its
/// display text reads back to it: reading is idempotent through display.
pub proof fn lemma_parse_display_parse(input: Seq<char>)
    ensures
        parse_hotkey(input) matches Ok(h) ==> is_canonical(h) && parse_hotkey(hotkey_text(h))
            == Ok::<Hotkey, Fault>(h),
{
    lemma_fold_keys_canonical(split_plus(input));
    if let Ok(h) = parse_hotkey(input) {
        lemma_parse_of_text(h);
    }
}

impl Hotkey {
    /// Reads a hotkey text such as `Ctrl+Alt+U`: tokens separated by `+`,
    /// each trimmed; `ctrl`/`control`, `alt` and `shift` in any ASCII case
    /// are modifiers, and one ASCII letter or digit is the key (kept in upper
    /// case, the last one wins). The first bad token is reported.
    pub fn parse(input: &str) -> (r: Result<Hotkey, HotkeyError>)
        ensures
            match parse_hotkey(input@) {
                Ok(h) => r == Ok::<Hotkey, HotkeyError>(h),
                Err(f) => r matches Err(e) && error_is(e, f),
            },
    {
        let chars = chars_of(input);
        let n = chars.len();
        let mut acc: Result<Parts, HotkeyError> = Ok((false, false, false, None));
        let mut current: Vec<char> = Vec::new();
        let mut i: usize = 0;
        proof {
            assert(chars@.take(0) =~= Seq::<char>::empty());
            assert(split_plus(Seq::<char>::empty()).drop_last() =~= Seq::<Seq<char>>::empty());
        }
        while i < n
            invariant
                n == chars.len(),
                chars@ == input@,
                i <= n,
                acc_matches(acc, fold_tokens(split_plus(chars@.take(i as int)).drop_last())),
                split_plus(chars@.take(i as int)).last() == current@,
            decreases n - i,
        {
            let ghost before = chars@.take(i as int);
            let ghost after = chars@.take(i + 1);
            proof {
                assert(after.drop_last() =~= before);
                assert(after.last() == chars@[i as int]);
                lemma_split_nonempty(before);
            }
            if chars[i] == '+' {
                proof {
                    assert(split_plus(after) == split_plus(before).push(Seq::<char>::empty()));
                    assert(split_plus(after).drop_last() =~= split_plus(before));
                    let toks = split_plus(before);
                    assert(toks =~= toks.drop_last().push(toks.last()));
                }
                acc = match acc {
                    Ok(st) => apply_token(st, &current),
                    Err(e) => Err(e),
                };
                current = Vec::new();
            } else {
                proof {
                    let toks = split_plus(before);
                    assert(split_plus(after) == toks.update(
                        toks.len() - 1,
                        toks.last().push(chars@[i as int]),
                    ));
                    assert(split_plus(after).drop_last() =~= toks.drop_last());
                }
                current.push(chars[i]);
            }
            i = i + 1;
        }
        proof {
            assert(chars@.take(n as int) =~= chars@);
            let toks = split_plus(chars@);
            lemma_split_nonempty(chars@);
            assert(toks =~= toks.drop_last().push(toks.last()));
        }
        let last = match acc {
            Ok(st) => apply_token(st, &current),
            Err(e) => Err(e),
        };
        match last {
            Err(e) => Err(e),
            Ok(st) => match st.3 {
                None => Err(fault(HotkeyRule::MissingKey)),
                Some(key) => if !(st.0 || st.1 || st.2) {
                    Err(fault(HotkeyRule::MissingModifier))
                } else {
                    Ok(Hotkey { ctrl: st.0, alt: st.1, shift: st.2, key })
                },
            },
        }
    }

    /// The display text of the hotkey, e.g. `Ctrl+Alt+U`.
    pub fn to_text(&self) -> (s: String)
        ensures
            s@ == hotkey_text(*self),
    {
        let mut s = String::new();
        if self.ctrl {
            s.append("Ctrl+");
        }
        if self.alt {
            s.append("Alt+");
        }
        if self.shift {
            s.append("Shift+");
        }
        s.push(self.key);
        proof {
            reveal_strlit("Ctrl+");
            reveal_strlit("Alt+");
            reveal_strlit("Shift+");
            assert(s@ =~= hotkey_text(*self));
        }
        s
    }
}

impl HotkeyError {
    /// The message that explains the rejection.
    pub fn message(&self) -> (m: String)
        ensures
            m@ == hotkey_message(self.rule, self.token@),
    {
        match self.rule {
            HotkeyRule::KeyNotAlphanumeric => String::from_str(
                "hotkey key must be an ASCII letter or digit",
            ),
            HotkeyRule::UnsupportedToken => {
                let mut m = String::from_str("unsupported hotkey token '");
                m.append(self.token.as_str());
                m.append("'");
                m
            },
            HotkeyRule::MissingKey => String::from_str(
                "hotkey must include a key, for example Ctrl+Alt+U",
            ),
            HotkeyRule::MissingModifier => String::from_str(
                "hotkey must include at least one modifier",
            ),
        }
    }
}

pub open spec fn hotkey_message(rule: HotkeyRule, token: Seq<char>) -> Seq<char> {
    match rule {
        HotkeyRule::KeyNotAlphanumeric => "hotkey key must be an ASCII letter or digit"@,
        HotkeyRule::UnsupportedToken => "unsupported hotkey token '"@ + token + "'"@,
        HotkeyRule::MissingKey => "hotkey must include a key, for example Ctrl+Alt+U"@,
        HotkeyRule::MissingModifier => "hotkey must include at least one modifier"@,
    }
}

impl core::str::FromStr for Hotkey {
    type Err = HotkeyError;

    /// The same reading as `Hotkey::parse`.
    fn from_str(input: &str) -> (r: Result<Hotkey, HotkeyError>)
        ensures
            match parse_hotkey(input@) {
                Ok(h) => r == Ok::<Hotkey, HotkeyError>(h),
                Err(f) => r matches Err(e) && error_is(e, f),
            },
    {
        Hotkey::parse(input)
    }
}

} // verus!
