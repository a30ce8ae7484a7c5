//! Coercion of an argument's textual value to a typed value.

use crate::ast::Arg;
use crate::chars::str_to_chars;
use vstd::prelude::*;

verus! {

/// A decimal digit.
pub open spec fn is_digit_char(c: char) -> bool {
    48 <= c as u32 && c as u32 <= 57
}

/// The numeric value of a decimal digit.
pub open spec fn digit_value(c: char) -> int {
    c as u32 - 48
}

/// The number written by a digit sequence, most significant first.
pub open spec fn digits_value(s: Seq<char>) -> int
    decreases s.len(),
{
    if s.len() == 0 {
        0
    } else {
        digits_value(s.drop_last()) * 10 + digit_value(s.last())
    }
}

/// Every character is a decimal digit.
pub open spec fn all_digits(s: Seq<char>) -> bool {
    forall|i: int| 0 <= i < s.len() ==> is_digit_char(s[i])
}

/// A digit sequence writes a non-negative number.
pub proof fn lemma_digits_value_nonneg(s: Seq<char>)
    requires
        all_digits(s),
    ensures
        digits_value(s) >= 0,
    decreases s.len(),
{
    if s.len() > 0 {
        assert(forall|i: int| 0 <= i < s.drop_last().len() ==> is_digit_char(s.drop_last()[i]));
        lemma_digits_value_nonneg(s.drop_last());
    }
}

/// A prefix of a digit sequence writes at most the whole sequence's number.
pub proof fn lemma_digits_value_prefix(s: Seq<char>, k: int)
    requires
        all_digits(s),
        0 <= k <= s.len(),
    ensures
        digits_value(s.subrange(0, k)) <= digits_value(s),
    decreases s.len(),
{
    if k == s.len() {
        assert(s.subrange(0, k) =~= s);
    } else {
        let dl = s.drop_last();
        assert(forall|i: int| 0 <= i < dl.len() ==> is_digit_char(dl[i]));
        lemma_digits_value_prefix(dl, k);
        assert(s.subrange(0, k) =~= dl.subrange(0, k));
        lemma_digits_value_nonneg(dl);
    }
}

/// A type an argument's textual value can be coerced to.
pub trait ArgValue: Sized {
    /// The value a bare key (one with no `:value` part) stands for, if the
    /// type gives bare keys a meaning; `bool` reads a bare key as `true`.
    spec fn flag_spec() -> Option<Self>;

    /// On which value strings parsing succeeds.
    spec fn parses(s: Seq<char>) -> bool;

    /// Whether `v` is what the value string `s` parses to.
    spec fn parsed(s: Seq<char>, v: Self) -> bool;

    /// The value a bare key stands for.
    fn flag_value() -> (r: Option<Self>)
        ensures
            r == Self::flag_spec(),
    ;

    /// Parses a value string as this type.
    fn of_value_str(s: &str) -> (r: Option<Self>)
        ensures
            r is Some <==> Self::parses(s@),
            r matches Option::Some(v) ==> Self::parsed(s@, v),
    ;
}

impl ArgValue for bool {
    /// A bare key means `true`.
    open spec fn flag_spec() -> Option<bool> {
        Option::Some(true)
    }

    open spec fn parses(s: Seq<char>) -> bool {
        s == seq!['t', 'r', 'u', 'e'] || s == seq!['f', 'a', 'l', 's', 'e']
    }

    open spec fn parsed(s: Seq<char>, v: bool) -> bool {
        v == (s == seq!['t', 'r', 'u', 'e'])
    }

    fn flag_value() -> (r: Option<bool>) {
        Option::Some(true)
    }

    fn of_value_str(s: &str) -> (r: Option<bool>) {
        let cs = str_to_chars(s);
        if cs.len() == 4 && cs[0] == 't' && cs[1] == 'r' && cs[2] == 'u' && cs[3] == 'e' {
            proof {
                assert(s@ =~= seq!['t', 'r', 'u', 'e']);
            }
            Option::Some(true)
        } else if cs.len() == 5 && cs[0] == 'f' && cs[1] == 'a' && cs[2] == 'l' && cs[3] == 's'
            && cs[4] == 'e' {
            proof {
                assert(s@ =~= seq!['f', 'a', 'l', 's', 'e']);
                assert(s@[0] != 't');
            }
            Option::Some(false)
        } else {
            proof {
                if s@ == seq!['t', 'r', 'u', 'e'] {
                    assert(cs@.len() == 4 && cs@[0] == 't' && cs@[1] == 'r' && cs@[2] == 'u'
                        && cs@[3] == 'e');
                }
                if s@ == seq!['f', 'a', 'l', 's', 'e'] {
                    assert(cs@.len() == 5 && cs@[0] == 'f' && cs@[1] == 'a' && cs@[2] == 'l'
                        && cs@[3] == 's' && cs@[4] == 'e');
                }
            }
            Option::None
        }
    }
}

impl ArgValue for String {
    /// A bare key stands for no string value.
    open spec fn flag_spec() -> Option<String> {
        Option::None
    }

    /// Every value string is itself a string.
    open spec fn parses(s: Seq<char>) -> bool {
        true
    }

    open spec fn parsed(s: Seq<char>, v: String) -> bool {
        v@ == s
    }

    fn flag_value() -> (r: Option<String>) {
        Option::None
    }

    fn of_value_str(s: &str) -> (r: Option<String>) {
        Option::Some(s.to_owned())
    }
}

impl ArgValue for u64 {
    /// A bare key stands for no number.
    open spec fn flag_spec() -> Option<u64> {
        Option::None
    }

    /// A non-empty string of decimal digits whose number fits.
    open spec fn parses(s: Seq<char>) -> bool {
        s.len() > 0 && all_digits(s) && digits_value(s) <= u64::MAX
    }

    open spec fn parsed(s: Seq<char>, v: u64) -> bool {
        v == digits_value(s)
    }

    fn flag_value() -> (r: Option<u64>) {
        Option::None
    }

    fn of_value_str(s: &str) -> (r: Option<u64>) {
        let cs = str_to_chars(s);
        if cs.len() == 0 {
            return Option::None;
        }
        let mut acc: u64 = 0;
        let mut i: usize = 0;
        while i < cs.len()
            invariant
                cs@ == s@,
                0 < cs@.len(),
                i <= cs@.len(),
                all_digits(s@.subrange(0, i as int)),
                acc as int == digits_value(s@.subrange(0, i as int)),
            decreases cs@.len() - i,
        {
            let c = cs[i];
            let cu = c as u32;
            if cu < 48 || cu > 57 {
                assert(!is_digit_char(s@[i as int]));
                return Option::None;
            }
            let d = (cu - 48) as u64;
            let ghost pre = s@.subrange(0, i as int);
            let ghost cur = s@.subrange(0, i as int + 1);
            proof {
                assert(cur.drop_last() =~= pre);
                assert(cur.last() == s@[i as int]);
            }
            match acc.checked_mul(10) {
                Option::Some(t) => {
                    match t.checked_add(d) {
                        Option::Some(n) => {
                            acc = n;
                        },
                        Option::None => {
                            proof {
                                if all_digits(s@) {
                                    lemma_digits_value_prefix(s@, i as int + 1);
                                }
                            }
                            return Option::None;
                        },
                    }
                },
                Option::None => {
                    proof {
                        if all_digits(s@) {
                            lemma_digits_value_prefix(s@, i as int + 1);
                            lemma_digits_value_nonneg(pre);
                        }
                    }
                    return Option::None;
                },
            }
            i = i + 1;
        }
        proof {
            assert(s@.subrange(0, s@.len() as int) =~= s@);
        }
        Option::Some(acc)
    }
}

/// Why an argument's textual value could not be coerced.
#[derive(Debug, PartialEq, Eq, Clone)]
pub enum ValueError {
    /// The argument was a bare key, and the target type gives bare keys no
    /// meaning; holds the argument's key.
    MissingValue { key: String },
    /// The value does not parse as the target type; holds the argument's key.
    InvalidValue { key: String },
}

impl Arg {
    /// Coerces this argument's textual value to `T`.  A bare key yields
    /// the type's flag value where it has one (`true` for `bool`);
    /// otherwise the value must be present and parse as `T`, and the error
    /// identifies the argument by its key.
    pub fn parse_value<T: ArgValue>(&self) -> (r: Result<T, ValueError>)
        ensures
            match self.val {
                Option::None => match T::flag_spec() {
                    Option::Some(b) => r == Result::<T, ValueError>::Ok(b),
                    Option::None => r matches Result::Err(ValueError::MissingValue { key })
                        && key@ == self.key@,
                },
                Option::Some(v) => {
                    if T::parses(v@) {
                        r matches Result::Ok(x) && T::parsed(v@, x)
                    } else {
                        r matches Result::Err(ValueError::InvalidValue { key }) && key@
                            == self.key@
                    }
                },
            },
    {
        match &self.val {
            Option::None => match T::flag_value() {
                Option::Some(b) => Ok(b),
                Option::None => Err(ValueError::MissingValue { key: self.key.clone() }),
            },
            Option::Some(v) => match T::of_value_str(v.as_str()) {
                Option::Some(x) => Ok(x),
                Option::None => Err(ValueError::InvalidValue { key: self.key.clone() }),
            },
        }
    }
}

} // verus!
