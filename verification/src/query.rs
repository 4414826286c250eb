//! Reading the requested player number from a WebTransport session path,
//! such as `/game?player=12`.
use vstd::prelude::*;

verus! {

// ---------------------------------------------------------------------------
// Decimal numbers as `u16::from_str` reads them
// ---------------------------------------------------------------------------

/// An ASCII decimal digit.
pub open spec fn is_ascii_digit(c: char) -> bool {
    '0' <= c <= '9'
}

/// The value of an ASCII decimal digit.
pub open spec fn digit_value(c: char) -> int {
    c as int - '0' as int
}

/// Every character of `s` is an ASCII decimal digit.
pub open spec fn all_digits(s: Seq<char>) -> bool {
    forall|i: int| 0 <= i < s.len() ==> is_ascii_digit(#[trigger] s[i])
}

/// The number that a string of decimal digits denotes (most significant
/// digit first).
pub open spec fn decimal_value(s: Seq<char>) -> int
    decreases s.len(),
{
    if s.len() == 0 {
        0
    } else {
        decimal_value(s.drop_last()) * 10 + digit_value(s.last())
    }
}

/// What `str::parse::<u16>` returns, as the documentation of
/// `u16::from_str` describes it: an optional `+` sign followed by at least
/// one ASCII digit, denoting a value that fits in a `u16`; anything else
/// (an empty string, a lone sign, a `-` sign, any other character, a value
/// above `u16::MAX`) is an error, here `None`.
pub open spec fn spec_parse_u16(s: Seq<char>) -> Option<u16> {
    let digits = if s.len() > 0 && s[0] == '+' {
        s.drop_first()
    } else {
        s
    };
    if digits.len() > 0 && all_digits(digits) && decimal_value(digits) <= u16::MAX {
        Some(decimal_value(digits) as u16)
    } else {
        None
    }
}

/// Parses a decimal `u16` with `str::parse::<u16>`, dropping the error.
///
/// Trusted: the contract claims that `<u16 as FromStr>::from_str` succeeds
/// exactly on an optional `+` followed by one or more ASCII digits whose
/// value is at most `u16::MAX`, and then returns that value.
#[verifier::external_body]
fn parse_u16(s: &str) -> (r: Option<u16>)
    ensures
        r == spec_parse_u16(s@),
{
    s.parse::<u16>().ok()
}

// ---------------------------------------------------------------------------
// The session path
// ---------------------------------------------------------------------------

/// The key of the parameter that requests a player number.
pub open spec fn player_key() -> Seq<char> {
    seq!['p', 'l', 'a', 'y', 'e', 'r']
}

/// The player number that one query parameter requests: the parameter reads
/// `key=value` (split at its first `=`), the key is `player`, and the value
/// parses as a non-zero `u16`.
pub open spec fn parameter_player_number(parameter: Seq<char>) -> Option<u16> {
    match parameter.index_of_first('=') {
        None => None,
        Some(i) => if parameter.take(i) == player_key() {
            match spec_parse_u16(parameter.skip(i + 1)) {
                Some(n) => if n > 0 {
                    Some(n)
                } else {
                    None
                },
                None => None,
            }
        } else {
            None
        },
    }
}

/// The player number that a query requests: its parameters are the pieces
/// between `&` separators, and the first of them that requests a player
/// number decides.
pub open spec fn player_number_in_query(query: Seq<char>) -> Option<u16>
    decreases query.len(),
{
    match query.index_of_first('&') {
        None => parameter_player_number(query),
        Some(i) => match parameter_player_number(query.take(i)) {
            Some(n) => Some(n),
            None => {
                proof {
                    query.index_of_first_ensures('&');
                }
                player_number_in_query(query.skip(i + 1))
            },
        },
    }
}

/// The player number that a session path requests: the query is what
/// follows the first `?`; a path without `?` requests none.
pub open spec fn spec_requested_player_number(path: Seq<char>) -> Option<u16> {
    match path.index_of_first('?') {
        None => None,
        Some(i) => player_number_in_query(path.skip(i + 1)),
    }
}

/// `i` is where `c` first occurs in `s`, or `s.len()` when it does not.
pub proof fn lemma_first_index(s: Seq<char>, c: char, i: int)
    requires
        0 <= i <= s.len(),
        forall|j: int| 0 <= j < i ==> s[j] != c,
        i < s.len() ==> s[i] == c,
    ensures
        s.index_of_first(c) == (if i < s.len() {
            Some(i)
        } else {
            None
        }),
{
    s.index_of_first_ensures(c);
    match s.index_of_first(c) {
        Some(k) => {
            if k < i {
                assert(s[k] != c);
            }
            if i < k {
                assert(s[i] == c);
            }
        },
        None => {
            if i < s.len() {
                assert(s.contains(c));
            }
        },
    }
}

/// The characters of `s`, in order.
fn chars_of(s: &str) -> (cs: Vec<char>)
    ensures
        cs@ == s@,
{
    let mut cs: Vec<char> = Vec::new();
    for c in it: s.chars()
        invariant
            cs@ == it.seq().take(it.index()),
    {
        cs.push(c);
    }
    cs
}

/// The ASCII digit for `d` (`0 <= d < 10`).
pub open spec fn digit_char(d: int) -> char {
    ('0' as int + d) as char
}

/// The decimal rendering of `n`, without leading zeros.
pub open spec fn decimal_digits(n: nat) -> Seq<char>
    decreases n,
{
    if n < 10 {
        seq![digit_char(n as int)]
    } else {
        decimal_digits(n / 10).push(digit_char((n % 10) as int))
    }
}

proof fn lemma_decimal_digits(n: nat)
    ensures
        decimal_digits(n).len() > 0,
        all_digits(decimal_digits(n)),
        decimal_value(decimal_digits(n)) == n,
    decreases n,
{
    if n < 10 {
        let s = decimal_digits(n);
        assert(s.drop_last() =~= Seq::<char>::empty());
        assert(digit_value(digit_char(n as int)) == n);
        assert(decimal_value(s.drop_last()) == 0);
        assert(decimal_value(s) == decimal_value(s.drop_last()) * 10 + digit_value(s.last()));
    } else {
        lemma_decimal_digits(n / 10);
        let s = decimal_digits(n);
        assert(s.drop_last() =~= decimal_digits(n / 10));
        assert(digit_value(digit_char((n % 10) as int)) == n % 10);
        assert(n == (n / 10) * 10 + n % 10);
        assert(decimal_value(s) == decimal_value(s.drop_last()) * 10 + digit_value(s.last()));
    }
}

/// A session path `<prefix>?player=<n>`, followed by nothing or by further
/// parameters (`&...`), requests player `n`, for every non-zero `n` and
/// every prefix without `?`.
pub proof fn lemma_requested_player_number_round_trip(prefix: Seq<char>, n: u16, rest: Seq<char>)
    requires
        !prefix.contains('?'),
        n > 0,
        rest.len() == 0 || rest[0] == '&',
    ensures
        spec_requested_player_number(
            prefix + seq!['?'] + player_key() + seq!['='] + decimal_digits(n as nat) + rest,
        ) == Some(n),
{
    let digits = decimal_digits(n as nat);
    lemma_decimal_digits(n as nat);
    let param = player_key() + seq!['='] + digits;
    let query = param + rest;
    let path = prefix + seq!['?'] + player_key() + seq!['='] + digits + rest;
    assert(path =~= prefix + seq!['?'] + query);
    assert forall|j: int| 0 <= j < prefix.len() implies path[j] != '?' by {
        assert(path[j] == prefix[j]);
    }
    lemma_first_index(path, '?', prefix.len() as int);
    assert(path.skip(prefix.len() as int + 1) =~= query);
    assert forall|j: int| 0 <= j < param.len() implies query[j] != '&' by {
        assert(query[j] == param[j]);
        if j >= 7 {
            assert(param[j] == digits[j - 7]);
            assert(is_ascii_digit(digits[j - 7]));
        }
    }
    lemma_first_index(query, '&', param.len() as int);
    if rest.len() == 0 {
        assert(query =~= param);
    } else {
        assert(query.take(param.len() as int) =~= param);
    }
    assert forall|j: int| 0 <= j < 6 implies param[j] != '=' by {
        assert(param[j] == player_key()[j]);
    }
    lemma_first_index(param, '=', 6);
    assert(param.take(6) =~= player_key());
    assert(param.skip(7) =~= digits);
    assert(digits[0] != '+') by {
        assert(is_ascii_digit(digits[0]));
    }
}

/// The query text made of `parameters`, each followed by a `&`.
pub open spec fn each_followed_by_ampersand(parameters: Seq<Seq<char>>) -> Seq<char>
    decreases parameters.len(),
{
    if parameters.len() == 0 {
        Seq::empty()
    } else {
        parameters[0] + seq!['&'] + each_followed_by_ampersand(parameters.drop_first())
    }
}

/// Parameters that request no player number do not stand in the way: the
/// query they lead requests what the rest of the query requests.
pub proof fn lemma_parameters_without_player_skipped(parameters: Seq<Seq<char>>, tail: Seq<char>)
    requires
        forall|i: int|
            0 <= i < parameters.len() ==> !(#[trigger] parameters[i]).contains('&')
                && parameter_player_number(parameters[i]) is None,
    ensures
        player_number_in_query(each_followed_by_ampersand(parameters) + tail)
            == player_number_in_query(tail),
    decreases parameters.len(),
{
    if parameters.len() == 0 {
        assert(each_followed_by_ampersand(parameters) + tail =~= tail);
    } else {
        let first = parameters[0];
        let rest = parameters.drop_first();
        assert forall|i: int|
            0 <= i < rest.len() implies !(#[trigger] rest[i]).contains('&')
                && parameter_player_number(rest[i]) is None by {
            assert(rest[i] == parameters[i + 1]);
        }
        lemma_parameters_without_player_skipped(rest, tail);
        let after = each_followed_by_ampersand(rest) + tail;
        let query = each_followed_by_ampersand(parameters) + tail;
        assert(query =~= first + seq!['&'] + after);
        assert(!first.contains('&'));
        assert forall|j: int| 0 <= j < first.len() implies query[j] != '&' by {
            assert(query[j] == first[j]);
        }
        lemma_first_index(query, '&', first.len() as int);
        assert(query.take(first.len() as int) =~= first);
        assert(query.skip(first.len() as int + 1) =~= after);
    }
}

/// The parameter `player=<n>`, alone or followed by further parameters,
/// requests player `n`.
proof fn lemma_player_parameter(n: u16, rest: Seq<char>)
    requires
        n > 0,
        rest.len() == 0 || rest[0] == '&',
    ensures
        player_number_in_query(player_key() + seq!['='] + decimal_digits(n as nat) + rest)
            == Some(n),
{
    let digits = decimal_digits(n as nat);
    lemma_decimal_digits(n as nat);
    let param = player_key() + seq!['='] + digits;
    let query = param + rest;
    assert(query =~= player_key() + seq!['='] + digits + rest);
    assert forall|j: int| 0 <= j < param.len() implies query[j] != '&' by {
        assert(query[j] == param[j]);
        if j >= 7 {
            assert(param[j] == digits[j - 7]);
            assert(is_ascii_digit(digits[j - 7]));
        }
    }
    lemma_first_index(query, '&', param.len() as int);
    if rest.len() == 0 {
        assert(query =~= param);
    } else {
        assert(query.take(param.len() as int) =~= param);
    }
    assert forall|j: int| 0 <= j < 6 implies param[j] != '=' by {
        assert(param[j] == player_key()[j]);
    }
    lemma_first_index(param, '=', 6);
    assert(param.take(6) =~= player_key());
    assert(param.skip(7) =~= digits);
    assert(digits[0] != '+') by {
        assert(is_ascii_digit(digits[0]));
    }
}

/// Wherever `player=<n>` stands in the query, it is found: a session path
/// `<prefix>?<p1>&...&<pk>&player=<n>`, possibly followed by further
/// parameters (`&...`), requests player `n` for every non-zero `n`, every
/// prefix without `?`, and all parameters `p1..pk` (none, one, or many)
/// that hold no `&` and request no player number.
pub proof fn lemma_player_parameter_found_anywhere(
    prefix: Seq<char>,
    parameters: Seq<Seq<char>>,
    n: u16,
    rest: Seq<char>,
)
    requires
        !prefix.contains('?'),
        forall|i: int|
            0 <= i < parameters.len() ==> !(#[trigger] parameters[i]).contains('&')
                && parameter_player_number(parameters[i]) is None,
        n > 0,
        rest.len() == 0 || rest[0] == '&',
    ensures
        spec_requested_player_number(
            prefix + seq!['?'] + each_followed_by_ampersand(parameters) + player_key() + seq!['=']
                + decimal_digits(n as nat) + rest,
        ) == Some(n),
{
    let tail = player_key() + seq!['='] + decimal_digits(n as nat) + rest;
    let query = each_followed_by_ampersand(parameters) + tail;
    let path = prefix + seq!['?'] + each_followed_by_ampersand(parameters) + player_key() + seq!['=']
        + decimal_digits(n as nat) + rest;
    assert(path =~= prefix + seq!['?'] + query);
    assert forall|j: int| 0 <= j < prefix.len() implies path[j] != '?' by {
        assert(path[j] == prefix[j]);
    }
    lemma_first_index(path, '?', prefix.len() as int);
    assert(path.skip(prefix.len() as int + 1) =~= query);
    lemma_parameters_without_player_skipped(parameters, tail);
    lemma_player_parameter(n, rest);
}

/// A parameter requests a player number only when it reads
/// `player=<value>` with `<value>` an optional `+` followed by decimal
/// digits denoting that (non-zero, at most `u16::MAX`) number.
pub proof fn lemma_parameter_request_shape(parameter: Seq<char>)
    ensures
        parameter_player_number(parameter) matches Some(n) ==> {
            let value = parameter.skip(7);
            let digits = if value.len() > 0 && value[0] == '+' {
                value.drop_first()
            } else {
                value
            };
            &&& parameter.len() > 7
            &&& parameter.take(7) == player_key() + seq!['=']
            &&& n > 0
            &&& digits.len() > 0
            &&& all_digits(digits)
            &&& decimal_value(digits) == n
        },
{
    parameter.index_of_first_ensures('=');
    if let Some(n) = parameter_player_number(parameter) {
        let i = parameter.index_of_first('=').unwrap();
        assert(parameter.take(i) == player_key());
        assert(i == 6);
        assert(parameter.take(7) =~= player_key() + seq!['=']);
        let value = parameter.skip(7);
        let digits = if value.len() > 0 && value[0] == '+' {
            value.drop_first()
        } else {
            value
        };
        assert(spec_parse_u16(value) == Some(n));
        lemma_decimal_value_nonnegative(digits);
    }
}

/// Digits never denote a negative number.
proof fn lemma_decimal_value_nonnegative(s: Seq<char>)
    requires
        all_digits(s),
    ensures
        decimal_value(s) >= 0,
    decreases s.len(),
{
    if s.len() > 0 {
        assert(all_digits(s.drop_last())) by {
            assert forall|i: int| 0 <= i < s.drop_last().len() implies is_ascii_digit(
                #[trigger] s.drop_last()[i],
            ) by {
                assert(s.drop_last()[i] == s[i]);
            }
        }
        lemma_decimal_value_nonnegative(s.drop_last());
        assert(is_ascii_digit(s[s.len() - 1]));
    }
}

/// A parameter whose key (the text before its first `=`) is not `player`
/// requests nothing, whatever its value.
pub proof fn lemma_other_keys_ignored(key: Seq<char>, value: Seq<char>)
    requires
        !key.contains('='),
        key != player_key(),
    ensures
        parameter_player_number(key + seq!['='] + value) is None,
{
    let parameter = key + seq!['='] + value;
    assert forall|j: int| 0 <= j < key.len() implies parameter[j] != '=' by {
        assert(parameter[j] == key[j]);
    }
    lemma_first_index(parameter, '=', key.len() as int);
    assert(parameter.take(key.len() as int) =~= key);
}

/// Whether `cs[from..to]` reads `player`.
fn is_player_key(cs: &Vec<char>, from: usize, to: usize) -> (b: bool)
    requires
        from <= to <= cs.len(),
    ensures
        b == (cs@.subrange(from as int, to as int) == player_key()),
{
    let ghost key = cs@.subrange(from as int, to as int);
    if to - from != 6 {
        assert(key.len() != player_key().len());
        return false;
    }
    let b = cs[from] == 'p' && cs[from + 1] == 'l' && cs[from + 2] == 'a' && cs[from + 3] == 'y'
        && cs[from + 4] == 'e' && cs[from + 5] == 'r';
    if b {
        assert(key =~= player_key());
    } else {
        assert(key != player_key()) by {
            if key == player_key() {
                assert(key[0] == 'p' && key[1] == 'l' && key[2] == 'a' && key[3] == 'y'
                    && key[4] == 'e' && key[5] == 'r');
            }
        }
    }
    b
}

/// The index of the first `c` in `cs` at or after `from`, or `cs.len()`.
fn find_char(cs: &Vec<char>, c: char, from: usize, to: usize) -> (i: usize)
    requires
        from <= to <= cs.len(),
    ensures
        from <= i <= to,
        forall|j: int| from <= j < i ==> cs@[j] != c,
        i < to ==> cs@[i as int] == c,
{
    let mut i: usize = from;
    while i < to && cs[i] != c
        invariant
            from <= i <= to <= cs.len(),
            forall|j: int| from <= j < i ==> cs@[j] != c,
        decreases to - i,
    {
        i = i + 1;
    }
    i
}

/// Reads the player number that a WebTransport session path requests, as
/// in `/game?player=12`: the first parameter of the query (after the first
/// `?`, parameters separated by `&`, key and value by the first `=`) whose
/// key is `player` and whose value is a non-zero decimal `u16`.
pub fn requested_player_number(path: &str) -> (r: Option<u16>)
    ensures
        r == spec_requested_player_number(path@),
        r matches Some(n) ==> n > 0,
{
    let cs = chars_of(path);
    let n: usize = cs.len();
    let q: usize = find_char(&cs, '?', 0, n);
    proof {
        lemma_first_index(cs@, '?', q as int);
    }
    if q == n {
        return None;
    }
    let ghost query = cs@.skip(q + 1);
    let mut start: usize = q + 1;
    loop
        invariant
            q < start <= n == cs.len(),
            cs@ == path@,
            query == cs@.skip(q + 1),
            spec_requested_player_number(path@) == player_number_in_query(cs@.skip(start as int)),
        decreases n - start,
    {
        let ghost rest = cs@.skip(start as int);
        let end: usize = find_char(&cs, '&', start, n);
        let eq: usize = find_char(&cs, '=', start, end);
        let ghost param = rest.take(end - start);
        proof {
            lemma_first_index(rest, '&', end - start);
            assert(param =~= cs@.subrange(start as int, end as int));
            lemma_first_index(param, '=', eq - start);
        }
        let mut found: Option<u16> = None;
        if eq < end && is_player_key(&cs, start, eq) {
            assert(param.take(eq - start) =~= cs@.subrange(start as int, eq as int));
            let value = path.substring_char(eq + 1, end);
            assert(value@ =~= param.skip(eq - start + 1));
            match parse_u16(value) {
                Some(num) => {
                    if num > 0 {
                        found = Some(num);
                    }
                },
                None => {},
            }
        } else if eq < end {
            assert(param.take(eq - start) =~= cs@.subrange(start as int, eq as int));
        }
        assert(found == parameter_player_number(param));
        if found.is_some() {
            return found;
        }
        if end == n {
            assert(param =~= rest);
            return None;
        }
        assert(rest.skip(end - start + 1) =~= cs@.skip(end + 1));
        start = end + 1;
    }
}

} // verus!
