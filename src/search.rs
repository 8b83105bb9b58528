//! Query parameters of the user search: a substring pattern and a page window.
use vstd::prelude::*;
use vstd::string::*;

verus! {

/// Page size used when `limit` is absent or not an integer.
pub const DEFAULT_LIMIT: i64 = 10;

/// Offset used when `offset` is absent or not an integer.
pub const DEFAULT_OFFSET: i64 = 0;

/// Whether `c` is an ASCII decimal digit.
pub open spec fn is_decimal_digit(c: char) -> bool {
    '0' <= c <= '9'
}

/// A non-empty run of ASCII decimal digits.
pub open spec fn is_digit_run(s: Seq<char>) -> bool {
    s.len() > 0 && forall|i: int| 0 <= i < s.len() ==> is_decimal_digit(#[trigger] s[i])
}

/// The value of a run of decimal digits.
pub open spec fn digits_value(s: Seq<char>) -> int
    decreases s.len(),
{
    if s.len() == 0 {
        0
    } else {
        digits_value(s.drop_last()) * 10 + (s.last() as int - '0' as int)
    }
}

/// The integer written by `s`: an optional `+` or `-`, then decimal digits,
/// with nothing before or after.
pub open spec fn integer_text_value(s: Seq<char>) -> Option<int> {
    if s.len() > 0 && s[0] == '-' && is_digit_run(s.drop_first()) {
        Some(-digits_value(s.drop_first()))
    } else if s.len() > 0 && s[0] == '+' && is_digit_run(s.drop_first()) {
        Some(digits_value(s.drop_first()))
    } else if is_digit_run(s) {
        Some(digits_value(s))
    } else {
        None
    }
}

/// What `s.parse::<i64>()` gives: the written integer where it fits in `i64`.
pub open spec fn parsed_i64(s: Seq<char>) -> Option<i64> {
    match integer_text_value(s) {
        Some(v) => if i64::MIN <= v <= i64::MAX {
            Some(v as i64)
        } else {
            None
        },
        None => None,
    }
}

/// The value of a digit run never shrinks as the run grows.
proof fn lemma_digits_value_grows(s: Seq<char>, i: int, j: int)
    requires
        0 <= i <= j <= s.len(),
        forall|k: int| 0 <= k < j ==> is_decimal_digit(#[trigger] s[k]),
    ensures
        0 <= digits_value(s.subrange(0, i)) <= digits_value(s.subrange(0, j)),
    decreases j,
{
    if j > 0 {
        let p = s.subrange(0, j);
        assert(p.drop_last() =~= s.subrange(0, j - 1));
        assert(p.last() == s[j - 1]);
        if i < j {
            lemma_digits_value_grows(s, i, j - 1);
        } else {
            lemma_digits_value_grows(s, j - 1, j - 1);
        }
    } else {
        assert(s.subrange(0, 0).len() == 0);
    }
}

/// How the written integer splits into its sign and its digit run.
proof fn lemma_integer_text_value(s: Seq<char>, start: int)
    requires
        s.len() > 0,
        start == (if s[0] == '-' || s[0] == '+' { 1int } else { 0int }),
    ensures
        integer_text_value(s) == (if is_digit_run(s.subrange(start, s.len() as int)) {
            Some(
                if s[0] == '-' {
                    -digits_value(s.subrange(start, s.len() as int))
                } else {
                    digits_value(s.subrange(start, s.len() as int))
                },
            )
        } else {
            None
        }),
{
    if start == 1 {
        assert(s.subrange(1, s.len() as int) =~= s.drop_first());
        assert(!is_decimal_digit(s[0]));
    } else {
        assert(s.subrange(0, s.len() as int) =~= s);
    }
}

/// Parses an optionally signed decimal `i64`, as `str::parse::<i64>` does.
fn parse_i64(s: &str) -> (r: Option<i64>)
    ensures
        r == parsed_i64(s@),
{
    let n = s.unicode_len();
    if n == 0 {
        return None;
    }
    let first = s.get_char(0);
    let negative = first == '-';
    let start: usize = if first == '-' || first == '+' { 1 } else { 0 };
    let ghost body = s@.subrange(start as int, n as int);
    proof {
        lemma_integer_text_value(s@, start as int);
    }
    if start == n {
        return None;
    }
    let mut acc: i64 = 0;
    let mut i: usize = start;
    while i < n
        invariant
            start <= i <= n,
            start < n,
            n == s@.len(),
            first == s@[0],
            negative == (first == '-'),
            start == (if first == '-' || first == '+' { 1usize } else { 0usize }),
            body == s@.subrange(start as int, n as int),
            forall|k: int| 0 <= k < i - start ==> is_decimal_digit(#[trigger] body[k]),
            acc == (if negative {
                -digits_value(body.subrange(0, i - start))
            } else {
                digits_value(body.subrange(0, i - start))
            }),
        decreases n - i,
    {
        let c = s.get_char(i);
        assert(body[i - start] == c);
        if !('0' <= c && c <= '9') {
            proof {
                assert(!is_decimal_digit(body[i - start]));
                lemma_integer_text_value(s@, start as int);
            }
            return None;
        }
        let d = (c as u32 - '0' as u32) as i64;
        let ghost k = i - start + 1;
        proof {
            let p = body.subrange(0, k);
            assert(p.drop_last() =~= body.subrange(0, k - 1));
            assert(p.last() == c);
            lemma_digits_value_grows(body, k - 1, k - 1);
            assert(digits_value(p) == digits_value(body.subrange(0, k - 1)) * 10 + d);
        }
        let next = if negative {
            match acc.checked_mul(10) {
                Some(m) => m.checked_sub(d),
                None => None,
            }
        } else {
            match acc.checked_mul(10) {
                Some(m) => m.checked_add(d),
                None => None,
            }
        };
        match next {
            Some(v) => {
                acc = v;
            },
            None => {
                proof {
                    let vk = digits_value(body.subrange(0, k));
                    if negative {
                        assert(-vk < i64::MIN);
                    } else {
                        assert(vk > i64::MAX);
                    }
                    lemma_integer_text_value(s@, start as int);
                    if is_digit_run(body) {
                        lemma_digits_value_grows(body, k, body.len() as int);
                        assert(body.subrange(0, body.len() as int) =~= body);
                    }
                }
                return None;
            },
        }
        i = i + 1;
    }
    proof {
        assert(body.subrange(0, n - start) =~= body);
        lemma_integer_text_value(s@, start as int);
    }
    Some(acc)
}

/// The parameters of one search query.
#[derive(Clone, Debug, PartialEq, Eq)]
pub struct SearchQuery {
    /// Case-insensitive `LIKE` pattern matching names that contain the term.
    pub pattern: String,
    pub limit: i64,
    pub offset: i64,
}

/// The value of an optional integer parameter, or `default` where it is absent
/// or not an `i64`.
pub open spec fn integer_param(param: Option<&str>, default: i64) -> i64 {
    match param {
        Some(s) => match parsed_i64(s@) {
            Some(v) => v,
            None => default,
        },
        None => default,
    }
}

/// The `LIKE` pattern for names containing `term`.
pub open spec fn containing_pattern(term: Seq<char>) -> Seq<char> {
    seq!['%'] + term + seq!['%']
}

fn integer_param_or(param: Option<&str>, default: i64) -> (r: i64)
    ensures
        r == integer_param(param, default),
{
    match param {
        Some(s) => match parse_i64(s) {
            Some(v) => v,
            None => default,
        },
        None => default,
    }
}

/// Builds the search query from the raw `name`, `limit` and `offset`
/// parameters; an absent name matches every user.
pub fn search_query(name: Option<&str>, limit: Option<&str>, offset: Option<&str>) -> (r:
    SearchQuery)
    ensures
        r.pattern@ == containing_pattern(
            match name {
                Some(n) => n@,
                None => Seq::<char>::empty(),
            },
        ),
        r.limit == integer_param(limit, DEFAULT_LIMIT),
        r.offset == integer_param(offset, DEFAULT_OFFSET),
{
    let mut pattern = "%".to_owned();
    match name {
        Some(n) => pattern.append(n),
        None => {},
    }
    pattern.append("%");
    proof {
        reveal_strlit("%");
    }
    assert(pattern@ =~= containing_pattern(
        match name {
            Some(n) => n@,
            None => Seq::<char>::empty(),
        },
    ));
    SearchQuery {
        pattern,
        limit: integer_param_or(limit, DEFAULT_LIMIT),
        offset: integer_param_or(offset, DEFAULT_OFFSET),
    }
}

} // verus!
