//! Audio level values.
//!
//! The daemon writes the current audio level as plain decimal text in the
//! closed range zero to one. The library keeps such a value exactly as read,
//! in a canonical fixed-point form: a units digit (zero or one) and the
//! fraction digits with trailing zeros removed. A value outside the range,
//! or text that is not a plain decimal, is treated as absent, never clamped.

use vstd::prelude::*;
use crate::strutil::{is_digit, digit_value, is_digit_char, digit_value_of, trimmed, trim};

verus! {

/// Mathematical content of a [`Level`]: one, or zero point `frac`.
#[verifier::ext_equal]
pub struct LevelV {
    /// True when the value is exactly one.
    pub one: bool,
    /// Fraction digits, most significant first.
    pub frac: Seq<u8>,
}

/// A canonical level never carries a fraction on a value of one, keeps every
/// digit below ten, and never ends in a zero digit.
pub open spec fn canon(v: LevelV) -> bool {
    &&& (v.one ==> v.frac.len() == 0)
    &&& (forall|i: int| 0 <= i < v.frac.len() ==> v.frac[i] <= 9)
    &&& (v.frac.len() > 0 ==> v.frac[v.frac.len() - 1] != 0)
}

/// An audio level in the closed range zero to one, kept in canonical
/// fixed-point form.
#[derive(Debug, PartialEq)]
pub struct Level {
    one: bool,
    frac: Vec<u8>,
}

impl View for Level {
    type V = LevelV;

    closed spec fn view(&self) -> LevelV {
        LevelV { one: self.one, frac: self.frac@ }
    }
}

#[verifier::type_invariant]
pub open spec fn level_inv(l: Level) -> bool {
    canon(l@)
}

/// Index of the first dot, or the length when there is none.
pub open spec fn dot_pos(s: Seq<char>) -> int
    decreases s.len(),
{
    if s.len() == 0 {
        0
    } else if s[0] == '.' {
        0
    } else {
        1 + dot_pos(s.skip(1))
    }
}

/// How many dots the text holds.
pub open spec fn dot_count(s: Seq<char>) -> nat
    decreases s.len(),
{
    if s.len() == 0 {
        0
    } else if s[0] == '.' {
        1 + dot_count(s.skip(1))
    } else {
        dot_count(s.skip(1))
    }
}

/// Every character is a digit or a dot.
pub open spec fn digits_and_dots(s: Seq<char>) -> bool {
    forall|i: int| 0 <= i < s.len() ==> (is_digit(s[i]) || s[i] == '.')
}

/// Plain decimal text: digits with at most one dot, and at least one digit.
pub open spec fn plain_decimal(s: Seq<char>) -> bool {
    &&& s.len() > 0
    &&& digits_and_dots(s)
    &&& dot_count(s) <= 1
    &&& s.len() - dot_count(s) >= 1
}

/// All characters are the digit zero.
pub open spec fn all_zero(s: Seq<char>) -> bool {
    forall|i: int| 0 <= i < s.len() ==> s[i] == '0'
}

/// Whether the integer-part digits denote zero, one, or more than one.
/// The result is two for anything above one.
pub open spec fn small_int_value(s: Seq<char>) -> nat {
    if all_zero(s) {
        0
    } else if s.len() > 0 && s[s.len() - 1] == '1' && all_zero(s.take(s.len() - 1)) {
        1
    } else {
        2
    }
}

/// Fraction digits with trailing zeros removed.
pub open spec fn trim_zeros(s: Seq<char>) -> Seq<char>
    decreases s.len(),
{
    if s.len() == 0 {
        s
    } else if s[s.len() - 1] == '0' {
        trim_zeros(s.take(s.len() - 1))
    } else {
        s
    }
}

/// Digit characters as digit values.
pub open spec fn digit_values(s: Seq<char>) -> Seq<u8> {
    s.map_values(|c: char| digit_value(c) as u8)
}

/// The level denoted by plain decimal text, when it lies in the closed
/// range zero to one; anything else denotes no level at all.
pub open spec fn level_of_chars(s: Seq<char>) -> Option<LevelV> {
    if !plain_decimal(s) {
        Option::None
    } else {
        let dp = dot_pos(s);
        let ip = s.take(dp);
        let fp = if dp < s.len() {
            s.skip(dp + 1)
        } else {
            Seq::<char>::empty()
        };
        if small_int_value(ip) == 2 {
            Option::None
        } else if small_int_value(ip) == 1 {
            if all_zero(fp) {
                Option::Some(LevelV { one: true, frac: Seq::empty() })
            } else {
                Option::None
            }
        } else {
            Option::Some(LevelV { one: false, frac: digit_values(trim_zeros(fp)) })
        }
    }
}

/// Canonical text of a level: `1`, `0`, or `0.` followed by the fraction.
pub open spec fn level_chars(v: LevelV) -> Seq<char> {
    if v.one {
        seq!['1']
    } else if v.frac.len() == 0 {
        seq!['0']
    } else {
        seq!['0', '.'] + v.frac.map_values(|d: u8| digit_char(d))
    }
}

/// The character of a digit value below ten.
pub open spec fn digit_char(d: u8) -> char {
    if d == 0 { '0' }
    else if d == 1 { '1' }
    else if d == 2 { '2' }
    else if d == 3 { '3' }
    else if d == 4 { '4' }
    else if d == 5 { '5' }
    else if d == 6 { '6' }
    else if d == 7 { '7' }
    else if d == 8 { '8' }
    else { '9' }
}

/// Digit characters and digit values invert each other below ten.
pub proof fn lemma_digit_char_value(d: u8)
    requires
        d <= 9,
    ensures
        is_digit(digit_char(d)),
        digit_value(digit_char(d)) == d as nat,
{
}

/// The exec side of [`digit_char`]: the digit as a one-character string.
fn digit_lit(d: u8) -> (r: &'static str)
    requires
        d <= 9,
    ensures
        r@ =~= seq![digit_char(d)],
{
    proof {
        reveal_strlit("0");
        reveal_strlit("1");
        reveal_strlit("2");
        reveal_strlit("3");
        reveal_strlit("4");
        reveal_strlit("5");
        reveal_strlit("6");
        reveal_strlit("7");
        reveal_strlit("8");
        reveal_strlit("9");
    }
    if d == 0 { "0" }
    else if d == 1 { "1" }
    else if d == 2 { "2" }
    else if d == 3 { "3" }
    else if d == 4 { "4" }
    else if d == 5 { "5" }
    else if d == 6 { "6" }
    else if d == 7 { "7" }
    else if d == 8 { "8" }
    else { "9" }
}

impl Level {
    /// The level zero.
    pub fn zero() -> (r: Level)
        ensures
            r@ == (LevelV { one: false, frac: Seq::empty() }),
    {
        let l = Level { one: false, frac: Vec::new() };
        proof {
            assert(l@ =~= LevelV { one: false, frac: Seq::empty() });
        }
        l
    }

    /// Read a level from untrimmed text; the result, when there is one, is
    /// exactly the canonical form of the value the text denotes.
    pub fn parse(text: &str) -> (r: Option<Level>)
        ensures
            match r {
                Option::Some(l) => level_of_chars(trimmed(text@)) == Option::Some(l@) && canon(l@),
                Option::None => level_of_chars(trimmed(text@)) is None,
            },
    {
        let t = trim(text);
        Self::parse_plain(t)
    }

    /// Read a level from text already free of surrounding whitespace.
    #[verifier::loop_isolation(false)]
    #[verifier::rlimit(60)]
    pub fn parse_plain(t: &str) -> (r: Option<Level>)
        ensures
            match r {
                Option::Some(l) => level_of_chars(t@) == Option::Some(l@) && canon(l@),
                Option::None => level_of_chars(t@) is None,
            },
    {
        let len = t.unicode_len();
        if len == 0 {
            return Option::None;
        }
        // Locate the dot and check the alphabet in one scan.
        let mut i: usize = 0;
        let mut dot: usize = len;
        let mut dots: usize = 0;
        while i < len
            invariant
                i <= len,
                dots <= i,
                dot <= len,
                forall|j: int| 0 <= j < i ==> (is_digit(t@[j]) || t@[j] == '.'),
                dots == dot_count(t@.take(i as int)),
                dot as int == if dot_count(t@.take(i as int)) > 0 {
                    dot_pos(t@.take(i as int))
                } else {
                    len as int
                },
                dot < len ==> t@[dot as int] == '.',
            decreases len - i,
        {
            let c = t.get_char(i);
            if is_digit_char(c) {
                // fine
            } else if c == '.' {
                if dots == 0 {
                    dot = i;
                }
                dots = dots + 1;
            } else {
                proof {
                    lemma_not_plain(t@, i as int);
                }
                return Option::None;
            }
            proof {
                lemma_scan_step(t@, i as int);
            }
            i = i + 1;
        }
        proof {
            assert(t@.take(len as int) =~= t@);
            lemma_dot_basics(t@);
            assert(dot as int == dot_pos(t@));
        }
        if dots > 1 {
            return Option::None;
        }
        if len == 1 && dots == 1 {
            // a lone dot has no digit
            assert(t@.len() - dot_count(t@) < 1);
            return Option::None;
        }
        assert(plain_decimal(t@)) by {
            if dots == 1 {
                assert(t@.len() - dot_count(t@) >= 1);
            }
        }
        proof {
            lemma_dot_unique(t@);
        }
        // Integer part: everything before the last of its digits must be a
        // zero, and the last digit decides between zero, one and too large.
        let ghost ip = t@.take(dot as int);
        proof {
            assert(forall|j: int| 0 <= j < dot ==> t@.take(dot as int)[j] == t@[j]);
        }
        let mut k: usize = 0;
        while k + 1 < dot
            invariant
                k <= dot,
                dot > 0 ==> k < dot,
                forall|j: int| 0 <= j < k ==> t@[j] == '0',
            decreases dot - k,
        {
            if t.get_char(k) != '0' {
                // some digit above the units place is not zero: the value
                // exceeds one whatever follows
                proof {
                    assert(!all_zero(ip)) by {
                        assert(ip[k as int] != '0');
                    }
                    assert(!(ip.len() > 0 && ip[ip.len() - 1] == '1' && all_zero(
                        ip.take(ip.len() - 1),
                    ))) by {
                        assert(forall|j: int|
                            0 <= j < ip.len() - 1 ==> ip.take(ip.len() - 1)[j] == ip[j]);
                        assert(ip.take(ip.len() - 1)[k as int] == t@[k as int]);
                    }
                    assert(small_int_value(ip) == 2);
                }
                return Option::None;
            }
            k = k + 1;
        }
        let one: bool;
        if dot == 0 {
            assert(all_zero(ip));
            assert(small_int_value(ip) == 0);
            one = false;
        } else {
            let last = t.get_char(dot - 1);
            assert(is_digit(last)) by {
                assert(t@[dot - 1] != '.');
            }
            proof {
                assert(forall|j: int| 0 <= j < dot - 1 ==> #[trigger] ip[j] == '0');
                assert(all_zero(ip.take(ip.len() - 1))) by {
                    assert(forall|j: int|
                        0 <= j < ip.len() - 1 ==> ip.take(ip.len() - 1)[j] == ip[j]);
                }
            }
            if last == '0' {
                assert(all_zero(ip)) by {
                    assert(ip[ip.len() - 1] == '0');
                    assert(forall|j: int| 0 <= j < ip.len() ==> ip[j] == '0');
                }
                assert(small_int_value(ip) == 0);
                one = false;
            } else if last == '1' {
                assert(!all_zero(ip)) by {
                    assert(ip[ip.len() - 1] == '1');
                }
                assert(small_int_value(ip) == 1);
                one = true;
            } else {
                proof {
                    assert(!all_zero(ip)) by {
                        assert(ip[ip.len() - 1] != '0');
                    }
                    assert(ip[ip.len() - 1] != '1');
                    assert(small_int_value(ip) == 2);
                }
                return Option::None;
            }
        }
        // Fraction part.
        let fstart = if dot < len { dot + 1 } else { len };
        let ghost fp = if (dot as int) < (len as int) {
            t@.skip(dot as int + 1)
        } else {
            Seq::<char>::empty()
        };
        proof {
            if (dot as int) < (len as int) {
                assert(forall|j: int|
                    0 <= j < t@.skip(dot as int + 1).len() ==> #[trigger] t@.skip(
                        dot as int + 1,
                    )[j] == t@[dot as int + 1 + j]);
            }
            assert(fp.len() == len - fstart);
            assert(forall|j: int| 0 <= j < fp.len() ==> fp[j] == t@[fstart + j]);
        }
        if one {
            // value one: the fraction must be all zeros
            let mut k2: usize = fstart;
            while k2 < len
                invariant
                    fstart <= k2 <= len,
                    forall|j: int| fstart <= j < k2 ==> t@[j] == '0',
                decreases len - k2,
            {
                if t.get_char(k2) != '0' {
                    assert(!all_zero(fp)) by {
                        assert(fp[k2 - fstart] == t@[k2 as int]);
                    }
                    return Option::None;
                }
                k2 = k2 + 1;
            }
            assert(all_zero(fp));
            let l = Level { one: true, frac: Vec::new() };
            proof {
                assert(l@ =~= LevelV { one: true, frac: Seq::empty() });
            }
            return Option::Some(l);
        }
        // value zero: gather fraction digits, then drop trailing zeros
        let mut fend = len;
        while fend > fstart && t.get_char(fend - 1) == '0'
            invariant
                fstart <= fend <= len,
                forall|j: int| fend <= j < len ==> t@[j] == '0',
            decreases fend,
        {
            fend = fend - 1;
        }
        proof {
            lemma_trim_zeros_range(fp, (fend - fstart) as int);
        }
        let mut frac: Vec<u8> = Vec::new();
        let mut k3 = fstart;
        while k3 < fend
            invariant
                fstart <= k3 <= fend,
                fstart + frac@.len() == k3,
                forall|j: int|
                    0 <= j < frac@.len() ==> (frac@[j] <= 9 && frac@[j] as nat == digit_value(
                        t@[fstart + j],
                    )),
            decreases fend - k3,
        {
            let c = t.get_char(k3);
            assert(is_digit(c)) by {
                assert(t@[k3 as int] != '.');
            }
            frac.push(digit_value_of(c));
            k3 = k3 + 1;
        }
        let l = Level { one: false, frac };
        proof {
            let tz = trim_zeros(fp);
            assert(tz =~= fp.take((fend - fstart) as int));
            assert(forall|j: int| 0 <= j < tz.len() ==> tz[j] == t@[fstart + j]) by {
                assert(forall|j: int|
                    0 <= j < fp.take((fend - fstart) as int).len() ==> fp.take(
                        (fend - fstart) as int,
                    )[j] == fp[j]);
            }
            lemma_trim_zeros_canon(fp);
            assert(forall|j: int| 0 <= j < tz.len() ==> is_digit(#[trigger] tz[j]));
            assert(l@.frac =~= digit_values(tz)) by {
                assert(digit_values(tz).len() == tz.len());
                assert(forall|j: int|
                    0 <= j < tz.len() ==> #[trigger] digit_values(tz)[j] == digit_value(
                        tz[j],
                    ) as u8);
            }
            assert(canon(l@)) by {
                if tz.len() > 0 {
                    assert(tz[tz.len() - 1] != '0');
                    assert(digit_value(tz[tz.len() - 1]) != 0);
                    assert(digit_values(tz)[tz.len() - 1] != 0);
                }
                assert(forall|j: int|
                    0 <= j < tz.len() ==> #[trigger] digit_values(tz)[j] <= 9);
            }
        }
        Option::Some(l)
    }

    /// Canonical text of this level, a valid JSON number.
    pub fn render(&self) -> (r: String)
        ensures
            r@ == level_chars(self@),
    {
        proof {
            use_type_invariant(self);
        }
        if self.one {
            let s = String::from_str("1");
            proof {
                reveal_strlit("1");
                assert(s@ =~= level_chars(self@));
            }
            return s;
        }
        if self.frac.len() == 0 {
            let s = String::from_str("0");
            proof {
                reveal_strlit("0");
                assert(s@ =~= level_chars(self@));
            }
            return s;
        }
        let mut s = String::new();
        s.append("0.");
        let mut i: usize = 0;
        let ghost digits = self@.frac.map_values(|d: u8| digit_char(d));
        while i < self.frac.len()
            invariant
                canon(self@),
                i <= self.frac.len(),
                digits == self@.frac.map_values(|d: u8| digit_char(d)),
                s@ == "0."@ + digits.take(i as int),
            decreases self.frac.len() - i,
        {
            let d = self.frac[i];
            s.append(digit_lit(d));
            proof {
                assert(digits.take(i + 1) =~= digits.take(i as int).push(digit_char(
                    self@.frac[i as int],
                )));
            }
            i = i + 1;
        }
        proof {
            reveal_strlit("0.");
            assert(digits.take(self@.frac.len() as int) =~= digits);
            assert("0."@ =~= seq!['0', '.']);
            assert(s@ =~= level_chars(self@));
        }
        s
    }

    /// Whether two levels denote the same value.
    pub fn same(&self, other: &Level) -> (r: bool)
        ensures
            r == (self@ == other@),
    {
        proof {
            use_type_invariant(self);
            use_type_invariant(other);
        }
        if self.one != other.one {
            assert(self@ != other@);
            return false;
        }
        if self.frac.len() != other.frac.len() {
            assert(self@.frac.len() != other@.frac.len());
            return false;
        }
        let mut i: usize = 0;
        while i < self.frac.len()
            invariant
                i <= self.frac.len(),
                self.frac.len() == other.frac.len(),
                self.one == other.one,
                forall|j: int| 0 <= j < i ==> self@.frac[j] == other@.frac[j],
            decreases self.frac.len() - i,
        {
            if self.frac[i] != other.frac[i] {
                assert(self@.frac[i as int] != other@.frac[i as int]);
                return false;
            }
            i = i + 1;
        }
        assert(self@.frac =~= other@.frac);
        true
    }

    /// A copy of this level.
    pub fn duplicate(&self) -> (r: Level)
        ensures
            r@ == self@,
    {
        proof {
            use_type_invariant(self);
        }
        let mut frac: Vec<u8> = Vec::new();
        let mut i: usize = 0;
        while i < self.frac.len()
            invariant
                i <= self.frac.len(),
                frac@ =~= self@.frac.take(i as int),
            decreases self.frac.len() - i,
        {
            frac.push(self.frac[i]);
            i = i + 1;
        }
        let l = Level { one: self.one, frac };
        proof {
            assert(self@.frac.take(self@.frac.len() as int) =~= self@.frac);
            assert(l@ =~= self@);
        }
        l
    }
}

/// Dropping trailing zeros stops at the given boundary when everything past
/// it is zero and the digit just before it is not.
proof fn lemma_trim_zeros_range(s: Seq<char>, k: int)
    requires
        0 <= k <= s.len(),
        forall|j: int| k <= j < s.len() ==> s[j] == '0',
        k > 0 ==> s[k - 1] != '0',
    ensures
        trim_zeros(s) == s.take(k),
    decreases s.len(),
{
    if s.len() == 0 {
        assert(s.take(k) =~= s);
    } else if s[s.len() - 1] == '0' {
        assert(k < s.len());
        lemma_trim_zeros_range(s.take(s.len() - 1), k);
        assert(s.take(s.len() - 1).take(k) =~= s.take(k));
    } else {
        assert(k == s.len());
        assert(s.take(k) =~= s);
    }
}

/// What remains after dropping trailing zeros never ends in a zero.
proof fn lemma_trim_zeros_canon(s: Seq<char>)
    ensures
        trim_zeros(s).len() <= s.len(),
        forall|j: int| 0 <= j < trim_zeros(s).len() ==> trim_zeros(s)[j] == s[j],
        trim_zeros(s).len() > 0 ==> trim_zeros(s)[trim_zeros(s).len() - 1] != '0',
    decreases s.len(),
{
    if s.len() == 0 {
    } else if s[s.len() - 1] == '0' {
        let h = s.take(s.len() - 1);
        lemma_trim_zeros_canon(h);
        assert(forall|j: int| 0 <= j < h.len() ==> h[j] == s[j]);
    }
}

/// A text with a character that is neither digit nor dot is no plain decimal.
proof fn lemma_not_plain(s: Seq<char>, i: int)
    requires
        0 <= i < s.len(),
        !is_digit(s[i]),
        s[i] != '.',
    ensures
        !plain_decimal(s),
{
}

/// One step of the scanning loop: extending the prefix by one character
/// extends dot bookkeeping in the expected way.
proof fn lemma_scan_step(s: Seq<char>, i: int)
    requires
        0 <= i < s.len(),
    ensures
        dot_count(s.take(i + 1)) == dot_count(s.take(i)) + if s[i] == '.' { 1nat } else { 0nat },
        dot_count(s.take(i)) > 0 ==> dot_pos(s.take(i + 1)) == dot_pos(s.take(i)),
        dot_count(s.take(i)) == 0 && s[i] == '.' ==> dot_pos(s.take(i + 1)) == i,
        dot_count(s.take(i)) == 0 && s[i] != '.' ==> dot_pos(s.take(i + 1)) == i + 1,
{
    lemma_dot_push(s.take(i), s[i]);
    assert(s.take(i + 1) =~= s.take(i).push(s[i]));
}

/// Push laws for the dot bookkeeping functions.
proof fn lemma_dot_push(s: Seq<char>, c: char)
    ensures
        dot_count(s.push(c)) == dot_count(s) + if c == '.' { 1nat } else { 0nat },
        dot_count(s) > 0 ==> dot_pos(s.push(c)) == dot_pos(s),
        dot_count(s) == 0 && c == '.' ==> dot_pos(s.push(c)) == s.len(),
        dot_count(s) == 0 && c != '.' ==> dot_pos(s.push(c)) == s.len() + 1,
    decreases s.len(),
{
    let p = s.push(c);
    assert(p.len() == s.len() + 1);
    assert(p[s.len() as int] == c);
    if s.len() == 0 {
        assert(p.skip(1) =~= Seq::<char>::empty());
        assert(dot_count(p.skip(1)) == 0);
        assert(dot_pos(p.skip(1)) == 0);
        assert(p[0] == c);
        assert(dot_count(p) == if c == '.' { 1nat } else { 0nat });
        assert(dot_count(s) == 0);
        assert(dot_pos(s) == 0);
        assert(dot_pos(p) == if c == '.' { 0int } else { 1int });
    } else {
        assert(p[0] == s[0]);
        lemma_dot_push(s.skip(1), c);
        assert(p.skip(1) =~= s.skip(1).push(c));
        assert(dot_count(p) == if p[0] == '.' {
            1 + dot_count(p.skip(1))
        } else {
            dot_count(p.skip(1))
        });
        assert(dot_count(s) == if s[0] == '.' {
            1 + dot_count(s.skip(1))
        } else {
            dot_count(s.skip(1))
        });
        assert(dot_pos(p) == if p[0] == '.' { 0int } else { 1 + dot_pos(p.skip(1)) });
        assert(dot_pos(s) == if s[0] == '.' { 0int } else { 1 + dot_pos(s.skip(1)) });
        if s[0] == '.' {
        } else {
            if dot_count(s) > 0 {
                assert(dot_count(s.skip(1)) > 0);
            }
        }
    }
}

/// With at most one dot, no position but the first dot position is a dot.
proof fn lemma_dot_unique(s: Seq<char>)
    requires
        dot_count(s) <= 1,
    ensures
        forall|j: int| 0 <= j < s.len() && j != dot_pos(s) ==> s[j] != '.',
    decreases s.len(),
{
    lemma_dot_basics(s);
    if s.len() == 0 {
    } else if s[0] == '.' {
        assert(dot_count(s.skip(1)) == 0);
        lemma_dot_basics(s.skip(1));
        assert(dot_pos(s) == 0);
        assert(forall|j: int| 1 <= j < s.len() ==> s[j] == s.skip(1)[j - 1]);
        assert(forall|j: int|
            0 <= j < s.skip(1).len() && j != dot_pos(s.skip(1)) ==> s.skip(1)[j] != '.');
    } else {
        lemma_dot_unique(s.skip(1));
        assert(dot_pos(s) == 1 + dot_pos(s.skip(1)));
        assert(forall|j: int| 1 <= j < s.len() ==> s[j] == s.skip(1)[j - 1]);
    }
}

/// A text without a dot character has dot count zero.
pub proof fn lemma_no_dot_count(s: Seq<char>)
    requires
        forall|j: int| 0 <= j < s.len() ==> s[j] != '.',
    ensures
        dot_count(s) == 0,
    decreases s.len(),
{
    if s.len() > 0 {
        assert(forall|j: int| 0 <= j < s.skip(1).len() ==> s.skip(1)[j] == s[j + 1]);
        lemma_no_dot_count(s.skip(1));
    }
}

/// A dot-free text has dot count zero.
proof fn lemma_no_dots(s: Seq<char>)
    requires
        forall|j: int| 0 <= j < s.len() ==> s[j] != '.',
    ensures
        dot_count(s) == 0,
    decreases s.len(),
{
    if s.len() == 0 {
    } else {
        assert(forall|j: int| 0 <= j < s.skip(1).len() ==> s.skip(1)[j] == s[j + 1]);
        lemma_no_dots(s.skip(1));
    }
}

/// Reading back the canonical text of a level yields the level itself.
pub proof fn lemma_level_chars_roundtrip(v: LevelV)
    requires
        canon(v),
    ensures
        plain_decimal(level_chars(v)),
        level_of_chars(level_chars(v)) == Option::Some(v),
        level_chars(v).len() > 0,
        is_digit(level_chars(v)[0]),
{
    let s = level_chars(v);
    if v.one {
        assert(s =~= seq!['1']);
        assert(s.skip(1) =~= Seq::<char>::empty());
        assert(dot_count(s.skip(1)) == 0);
        assert(dot_count(s) == 0);
        lemma_dot_basics(s);
        assert(plain_decimal(s));
        let ip = s.take(dot_pos(s));
        assert(ip =~= s);
        assert(!all_zero(ip)) by {
            assert(ip[0] == '1');
        }
        assert(all_zero(ip.take(ip.len() - 1)));
        assert(small_int_value(ip) == 1);
        assert(all_zero(Seq::<char>::empty()));
        assert(level_of_chars(s) == Option::Some(LevelV { one: true, frac: Seq::empty() }));
        assert(LevelV { one: true, frac: Seq::empty() } =~= v);
    } else if v.frac.len() == 0 {
        assert(s =~= seq!['0']);
        assert(s.skip(1) =~= Seq::<char>::empty());
        assert(dot_count(s.skip(1)) == 0);
        assert(dot_count(s) == 0);
        lemma_dot_basics(s);
        assert(plain_decimal(s));
        let ip = s.take(dot_pos(s));
        assert(ip =~= s);
        assert(all_zero(ip));
        assert(small_int_value(ip) == 0);
        assert(trim_zeros(Seq::<char>::empty()) =~= Seq::<char>::empty());
        assert(digit_values(Seq::<char>::empty()) =~= Seq::<u8>::empty());
        assert(level_of_chars(s) == Option::Some(LevelV { one: false, frac: Seq::empty() }));
        assert(v.frac =~= Seq::<u8>::empty());
        assert(LevelV { one: false, frac: Seq::empty() } =~= v);
    } else {
        let digits = v.frac.map_values(|d: u8| digit_char(d));
        assert(s == seq!['0', '.'] + digits);
        assert(s.len() == 2 + v.frac.len());
        assert(s[0] == '0' && s[1] == '.');
        assert(forall|j: int| 0 <= j < digits.len() ==> #[trigger] digits[j] == digit_char(
            v.frac[j],
        ));
        assert(forall|j: int| 2 <= j < s.len() ==> s[j] == digits[j - 2]);
        assert(forall|j: int| 0 <= j < digits.len() ==> is_digit(#[trigger] digits[j])) by {
            assert(forall|j: int| 0 <= j < v.frac.len() ==> v.frac[j] <= 9);
            assert forall|j: int| 0 <= j < digits.len() implies is_digit(#[trigger] digits[j]) by {
                lemma_digit_char_value(v.frac[j]);
            }
        }
        assert(digits_and_dots(s));
        // exactly one dot, at position one
        assert(s.skip(2) =~= digits);
        assert(forall|j: int| 0 <= j < digits.len() ==> digits[j] != '.');
        lemma_no_dots(digits);
        assert(s.skip(1)[0] == '.');
        assert(s.skip(1).skip(1) =~= digits);
        assert(dot_count(s.skip(1)) == 1);
        assert(dot_pos(s.skip(1)) == 0);
        assert(dot_count(s) == 1);
        assert(dot_pos(s) == 1);
        assert(plain_decimal(s));
        let ip = s.take(1);
        assert(ip =~= seq!['0']);
        assert(all_zero(ip));
        assert(small_int_value(ip) == 0);
        let fp = s.skip(2);
        assert(fp == digits);
        // no trailing zero, so trimming keeps everything
        assert(digits[digits.len() - 1] != '0') by {
            lemma_digit_char_value(v.frac[v.frac.len() - 1]);
            assert(v.frac[v.frac.len() - 1] != 0);
        }
        lemma_trim_zeros_range(fp, fp.len() as int);
        assert(trim_zeros(fp) == fp.take(fp.len() as int));
        assert(fp.take(fp.len() as int) =~= fp);
        assert(digit_values(digits) =~= v.frac) by {
            assert forall|j: int| 0 <= j < digits.len() implies #[trigger] digit_values(digits)[j]
                == v.frac[j] by {
                lemma_digit_char_value(v.frac[j]);
            }
        }
        assert(level_of_chars(s) == Option::Some(LevelV { one: false, frac: digit_values(fp) }));
        assert(LevelV { one: false, frac: digit_values(fp) } =~= v);
    }
}

/// Dot facts usable on their own: position is in range and marks a dot.
pub proof fn lemma_dot_basics(s: Seq<char>)
    ensures
        dot_count(s) == 0 ==> dot_pos(s) == s.len(),
        dot_count(s) > 0 ==> 0 <= dot_pos(s) < s.len() && s[dot_pos(s)] == '.',
        0 <= dot_pos(s) <= s.len(),
        forall|j: int| 0 <= j < dot_pos(s) ==> s[j] != '.',
    decreases s.len(),
{
    if s.len() == 0 {
    } else {
        lemma_dot_basics(s.skip(1));
        if s[0] != '.' {
            assert(forall|j: int|
                0 <= j < dot_pos(s.skip(1)) ==> s.skip(1)[j] != '.');
            assert(forall|j: int| 1 <= j < dot_pos(s) ==> s[j] == s.skip(1)[j - 1]);
        }
    }
}

} // verus!
