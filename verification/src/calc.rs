//! The calculator's text handling: which queries are arithmetic, how bare
//! function names are rewritten into the evaluator's namespace, and how a
//! `<number> <unit> to <unit>` conversion query is split and its units
//! recognised. Evaluating numbers is left to the caller.
use vstd::prelude::*;

use crate::text::{
    chars_vec, contains, contains_char, find_first, first_index_of, lemma_first_index_unique,
    owned, spec_ascii_lower, spec_contains, spec_find, spec_first_index_of,
    spec_is_ascii_alphanumeric, spec_to_lowercase, spec_to_uppercase, spec_trim, str_eq,
    string_of, to_lowercase, to_uppercase, trim, slice_vec, extend_str,
};

verus! {

// ---------------------------------------------------------------------------
// Query shape.
// ---------------------------------------------------------------------------

/// The expression of a query and whether it carried a leading `=`: the
/// trimmed query, without a leading `=` (and trimmed again after it); `None`
/// when nothing is left.
pub open spec fn spec_calc_expression(query: Seq<char>) -> Option<(Seq<char>, bool)> {
    let raw = spec_trim(query);
    let (e, eq) = if raw.len() > 0 && raw[0] == '=' {
        (spec_trim(raw.skip(1)), true)
    } else {
        (raw, false)
    };
    if e.len() == 0 {
        None
    } else {
        Some((e, eq))
    }
}

pub fn calc_expression(query: &str) -> (r: Option<(String, bool)>)
    ensures
        match spec_calc_expression(query@) {
            Some((e, eq)) => r matches Some(t) && t.0@ == e && t.1 == eq,
            None => r is None,
        },
{
    let v = chars_vec(query);
    let raw = trim(&v);
    let (e, eq) = if raw.len() > 0 && raw[0] == '=' {
        let rest = slice_vec(&raw, 1, raw.len());
        assert(rest@ =~= raw@.skip(1));
        (trim(&rest), true)
    } else {
        (raw, false)
    };
    if e.len() == 0 {
        None
    } else {
        Some((string_of(&e), eq))
    }
}

/// The function names a query may call.
pub open spec fn spec_function_name(k: int) -> Seq<char> {
    if k == 0 {
        "sqrt"@
    } else if k == 1 {
        "sin"@
    } else if k == 2 {
        "cos"@
    } else if k == 3 {
        "log"@
    } else {
        "abs"@
    }
}

/// Worth evaluating: the query had a leading `=`, or the expression holds an
/// operator (`+ - * / % ^`) or one of the names `sqrt sin cos log abs round`.
pub open spec fn spec_looks_like_arithmetic(expression: Seq<char>, had_equals: bool) -> bool {
    ||| had_equals
    ||| expression.contains('+')
    ||| expression.contains('-')
    ||| expression.contains('*')
    ||| expression.contains('/')
    ||| expression.contains('%')
    ||| expression.contains('^')
    ||| spec_contains(expression, "sqrt"@)
    ||| spec_contains(expression, "sin"@)
    ||| spec_contains(expression, "cos"@)
    ||| spec_contains(expression, "log"@)
    ||| spec_contains(expression, "abs"@)
    ||| spec_contains(expression, "round"@)
}

pub fn looks_like_arithmetic(expression: &str, had_equals: bool) -> (r: bool)
    ensures
        r == spec_looks_like_arithmetic(expression@, had_equals),
{
    if had_equals {
        return true;
    }
    let v = chars_vec(expression);
    contains_char(&v, '+') || contains_char(&v, '-') || contains_char(&v, '*') || contains_char(
        &v,
        '/',
    ) || contains_char(&v, '%') || contains_char(&v, '^') || contains(&v, "sqrt") || contains(
        &v,
        "sin",
    ) || contains(&v, "cos") || contains(&v, "log") || contains(&v, "abs") || contains(
        &v,
        "round",
    )
}

// ---------------------------------------------------------------------------
// Function-name rewriting.
// ---------------------------------------------------------------------------

/// The evaluator's name for function `k` (`log` is the base-10 logarithm).
pub open spec fn spec_function_replacement(k: int) -> Seq<char> {
    if k == 0 {
        "math::sqrt"@
    } else if k == 1 {
        "math::sin"@
    } else if k == 2 {
        "math::cos"@
    } else if k == 3 {
        "math::log10"@
    } else {
        "math::abs"@
    }
}

/// The character before position `i` belongs to an identifier (an ASCII
/// letter or digit, `_` or `:`).
pub open spec fn spec_identifier_before(s: Seq<char>, i: int) -> bool {
    i > 0 && (spec_is_ascii_alphanumeric(s[i - 1]) || s[i - 1] == '_' || s[i - 1] == ':')
}

/// From position `j`, after any spaces, the next character is `(`.
pub open spec fn spec_call_open_after(s: Seq<char>, j: int) -> bool
    decreases s.len() - j,
{
    if j < 0 || j >= s.len() {
        false
    } else if s[j] == ' ' {
        spec_call_open_after(s, j + 1)
    } else {
        s[j] == '('
    }
}

/// Function `k` is called at position `i`: its name starts there, is not the
/// tail of a longer identifier, and is followed (after spaces) by `(`.
pub open spec fn spec_call_at(s: Seq<char>, i: int, k: int) -> bool {
    let name = spec_function_name(k);
    &&& i + name.len() <= s.len()
    &&& s.subrange(i, i + name.len()) == name
    &&& !spec_identifier_before(s, i)
    &&& spec_call_open_after(s, i + name.len())
}

/// The first function (in table order) called at position `i`.
pub open spec fn spec_call_at_first(s: Seq<char>, i: int) -> Option<int> {
    if spec_call_at(s, i, 0) {
        Some(0)
    } else if spec_call_at(s, i, 1) {
        Some(1)
    } else if spec_call_at(s, i, 2) {
        Some(2)
    } else if spec_call_at(s, i, 3) {
        Some(3)
    } else if spec_call_at(s, i, 4) {
        Some(4)
    } else {
        None
    }
}

/// The rewritten text from position `i` on: each call of `sqrt`, `sin`,
/// `cos`, `log` or `abs` gets the evaluator's name; everything else is kept.
pub open spec fn spec_rewrite_from(s: Seq<char>, i: int) -> Seq<char>
    decreases s.len() - i,
{
    if i < 0 || i >= s.len() {
        Seq::empty()
    } else {
        match spec_call_at_first(s, i) {
            Some(k) => {
                proof {
                    reveal_strlit("sqrt");
                    reveal_strlit("sin");
                    reveal_strlit("cos");
                    reveal_strlit("log");
                    reveal_strlit("abs");
                }
                spec_function_replacement(k) + spec_rewrite_from(s, i + spec_function_name(k).len())
            },
            None => seq![s[i]] + spec_rewrite_from(s, i + 1),
        }
    }
}

pub open spec fn spec_rewrite_functions(s: Seq<char>) -> Seq<char> {
    spec_rewrite_from(s, 0)
}

proof fn lemma_no_open_paren_no_call(s: Seq<char>, j: int)
    requires
        !s.contains('('),
    ensures
        !spec_call_open_after(s, j),
    decreases s.len() - j,
{
    if 0 <= j < s.len() {
        if s[j] == ' ' {
            lemma_no_open_paren_no_call(s, j + 1);
        } else {
            assert(s[j] != '(');
        }
    }
}

proof fn lemma_rewrite_from_without_calls(s: Seq<char>, i: int)
    requires
        !s.contains('('),
        0 <= i <= s.len(),
    ensures
        spec_rewrite_from(s, i) == s.skip(i),
    decreases s.len() - i,
{
    if i < s.len() {
        assert forall|k: int| !spec_call_at(s, i, k) by {
            lemma_no_open_paren_no_call(s, i + spec_function_name(k).len());
        }
        lemma_rewrite_from_without_calls(s, i + 1);
        assert(seq![s[i]] + s.skip(i + 1) =~= s.skip(i));
    } else {
        assert(s.skip(i) =~= Seq::<char>::empty());
    }
}

/// Only calls are rewritten: an expression without `(` comes back unchanged.
pub proof fn law_rewrite_keeps_text_without_calls(s: Seq<char>)
    requires
        !s.contains('('),
    ensures
        spec_rewrite_functions(s) == s,
{
    lemma_rewrite_from_without_calls(s, 0);
    assert(s.skip(0) =~= s);
}

/// Whether the character before `index` belongs to an identifier.
pub fn is_identifier_byte_before(v: &Vec<char>, index: usize) -> (r: bool)
    requires
        index <= v.len(),
    ensures
        r == spec_identifier_before(v@, index as int),
{
    if index == 0 {
        return false;
    }
    let c = v[index - 1];
    (('a' <= c && c <= 'z') || ('A' <= c && c <= 'Z') || ('0' <= c && c <= '9')) || c == '_' || c
        == ':'
}

/// Whether, skipping spaces from `index`, the next character is `(`.
pub fn is_call_open_after(v: &Vec<char>, index: usize) -> (r: bool)
    ensures
        r == spec_call_open_after(v@, index as int),
{
    let mut cursor: usize = index;
    while cursor < v.len() && v[cursor] == ' '
        invariant
            index <= cursor,
            spec_call_open_after(v@, index as int) == spec_call_open_after(v@, cursor as int),
        decreases v.len() - cursor,
    {
        cursor += 1;
    }
    cursor < v.len() && v[cursor] == '('
}

fn name_at(v: &Vec<char>, i: usize, name: &str) -> (r: bool)
    requires
        i <= v.len(),
    ensures
        r == (i + name@.len() <= v@.len() && v@.subrange(i as int, i + name@.len()) == name@),
{
    let n = chars_vec(name);
    if n.len() > v.len() - i {
        return false;
    }
    let mut k: usize = 0;
    while k < n.len()
        invariant
            k <= n.len(),
            n@ == name@,
            i + n.len() <= v.len(),
            forall|j: int| 0 <= j < k ==> v@[i + j] == n@[j],
        decreases n.len() - k,
    {
        if v[i + k] != n[k] {
            assert(v@.subrange(i as int, i + name@.len())[k as int] != name@[k as int]);
            return false;
        }
        k += 1;
    }
    assert(v@.subrange(i as int, i + name@.len()) =~= name@);
    true
}

fn call_at(v: &Vec<char>, i: usize, name: &str) -> (r: bool)
    requires
        i <= v.len(),
    ensures
        r == (i + name@.len() <= v@.len() && v@.subrange(i as int, i + name@.len()) == name@
            && !spec_identifier_before(v@, i as int) && spec_call_open_after(
            v@,
            i + name@.len(),
        )),
{
    if !name_at(v, i, name) {
        return false;
    }
    let n = chars_vec(name);
    !is_identifier_byte_before(v, i) && is_call_open_after(v, i + n.len())
}

/// Rewrite the bare function names of a query into the evaluator's `math::`
/// namespace; `round` is a builtin already and stays.
pub fn rewrite_functions(expression: &str) -> (r: String)
    ensures
        r@ == spec_rewrite_functions(expression@),
{
    let v = chars_vec(expression);
    let mut out: Vec<char> = Vec::new();
    let mut i: usize = 0;
    proof {
        reveal_strlit("sqrt");
        reveal_strlit("sin");
        reveal_strlit("cos");
        reveal_strlit("log");
        reveal_strlit("abs");
        reveal_strlit("math::sqrt");
        reveal_strlit("math::sin");
        reveal_strlit("math::cos");
        reveal_strlit("math::log10");
        reveal_strlit("math::abs");
    }
    while i < v.len()
        invariant
            i <= v.len(),
            v@ == expression@,
            out@ + spec_rewrite_from(v@, i as int) == spec_rewrite_from(v@, 0),
            "sqrt"@.len() == 4,
            "sin"@.len() == 3,
            "cos"@.len() == 3,
            "log"@.len() == 3,
            "abs"@.len() == 3,
        decreases v.len() - i,
    {
        let ghost before = out@;
        let (name_len, replacement): (usize, &str) = if call_at(&v, i, "sqrt") {
            (4, "math::sqrt")
        } else if call_at(&v, i, "sin") {
            (3, "math::sin")
        } else if call_at(&v, i, "cos") {
            (3, "math::cos")
        } else if call_at(&v, i, "log") {
            (3, "math::log10")
        } else if call_at(&v, i, "abs") {
            (3, "math::abs")
        } else {
            (0, "")
        };
        if name_len > 0 {
            extend_str(&mut out, replacement);
            proof {
                let k = spec_call_at_first(v@, i as int)->0;
                assert(replacement@ == spec_function_replacement(k));
                assert(name_len == spec_function_name(k).len());
                assert(out@ + spec_rewrite_from(v@, i + name_len) =~= before + spec_rewrite_from(
                    v@,
                    i as int,
                ));
            }
            i = i + name_len;
        } else {
            out.push(v[i]);
            assert(out@ + spec_rewrite_from(v@, i + 1) =~= before + spec_rewrite_from(v@, i as int));
            i += 1;
        }
    }
    assert(out@ + spec_rewrite_from(v@, i as int) =~= out@);
    string_of(&out)
}

// ---------------------------------------------------------------------------
// Unit conversions.
// ---------------------------------------------------------------------------

/// A temperature scale.
#[derive(Debug, Clone, Copy, PartialEq, Eq)]
pub enum Temperature {
    Fahrenheit,
    Celsius,
    Kelvin,
}

/// A lower-cased temperature symbol, an optional leading degree sign
/// dropped: `f`, `c` or `k`.
pub open spec fn spec_parse_temperature(symbol: Seq<char>) -> Option<Temperature> {
    let s = if symbol.len() > 0 && symbol[0] == '\u{b0}' {
        symbol.skip(1)
    } else {
        symbol
    };
    if s == seq!['f'] {
        Some(Temperature::Fahrenheit)
    } else if s == seq!['c'] {
        Some(Temperature::Celsius)
    } else if s == seq!['k'] {
        Some(Temperature::Kelvin)
    } else {
        None
    }
}

pub fn parse_temperature(symbol: &str) -> (r: Option<Temperature>)
    ensures
        r == spec_parse_temperature(symbol@),
{
    let v = chars_vec(symbol);
    let s = if v.len() > 0 && v[0] == '\u{b0}' {
        let t = slice_vec(&v, 1, v.len());
        assert(t@ =~= v@.skip(1));
        t
    } else {
        v
    };
    if s.len() == 1 {
        assert(s@ =~= seq![s@[0]]);
        if s[0] == 'f' {
            Some(Temperature::Fahrenheit)
        } else if s[0] == 'c' {
            Some(Temperature::Celsius)
        } else if s[0] == 'k' {
            Some(Temperature::Kelvin)
        } else {
            None
        }
    } else {
        None
    }
}

/// The display symbol of a temperature scale: `°F`, `°C`, `K`.
pub fn temperature_display_symbol(unit: Temperature) -> (r: &'static str)
    ensures
        r@ == match unit {
            Temperature::Fahrenheit => "\u{b0}F"@,
            Temperature::Celsius => "\u{b0}C"@,
            Temperature::Kelvin => "K"@,
        },
{
    match unit {
        Temperature::Fahrenheit => "\u{b0}F",
        Temperature::Celsius => "\u{b0}C",
        Temperature::Kelvin => "K",
    }
}

/// A family of units converting through one ratio to a base unit.
#[derive(Debug, Clone, Copy, PartialEq, Eq)]
pub enum UnitFamily {
    Length,
    Mass,
    Data,
}

/// The symbols of a family, in table order.
pub open spec fn spec_family_symbols(f: UnitFamily) -> Seq<Seq<char>> {
    match f {
        UnitFamily::Length => seq!["m"@, "cm"@, "mm"@, "km"@, "ft"@, "in"@, "mi"@, "yd"@],
        UnitFamily::Mass => seq!["g"@, "kg"@, "mg"@, "lb"@, "oz"@],
        UnitFamily::Data => seq!["b"@, "kb"@, "mb"@, "gb"@, "tb"@],
    }
}

pub open spec fn spec_index_in(table: Seq<Seq<char>>, symbol: Seq<char>) -> Option<int> {
    if exists|i: int| 0 <= i < table.len() && table[i] == symbol {
        Some(choose|i: int| 0 <= i < table.len() && table[i] == symbol)
    } else {
        None
    }
}

/// The family and table position of a lower-cased linear unit symbol,
/// searching length, then mass, then data.
/// The canonical symbol at position `index` of a family's table.
pub fn unit_symbol(family: UnitFamily, index: usize) -> (r: &'static str)
    requires
        index < spec_family_symbols(family).len(),
    ensures
        r@ == spec_family_symbols(family)[index as int],
{
    let table = family_table(family);
    table[index]
}

/// The symbol a linear conversion's result is shown with: data units
/// upper-cased (`MB`), others as their canonical symbol.
pub fn linear_display_symbol(family: UnitFamily, index: usize) -> (r: String)
    requires
        index < spec_family_symbols(family).len(),
    ensures
        family == UnitFamily::Data ==> r@ == spec_to_uppercase(spec_family_symbols(family)[index as int]),
        family != UnitFamily::Data ==> r@ == spec_family_symbols(family)[index as int],
{
    let symbol = unit_symbol(family, index);
    match family {
        UnitFamily::Data => data_display_symbol(symbol),
        _ => owned(symbol),
    }
}

pub open spec fn spec_linear_unit(symbol: Seq<char>) -> Option<(UnitFamily, int)> {
    match spec_index_in(spec_family_symbols(UnitFamily::Length), symbol) {
        Some(i) => Some((UnitFamily::Length, i)),
        None => match spec_index_in(spec_family_symbols(UnitFamily::Mass), symbol) {
            Some(i) => Some((UnitFamily::Mass, i)),
            None => match spec_index_in(spec_family_symbols(UnitFamily::Data), symbol) {
                Some(i) => Some((UnitFamily::Data, i)),
                None => None,
            },
        },
    }
}

fn family_table(f: UnitFamily) -> (r: Vec<&'static str>)
    ensures
        r@.map_values(|s: &str| s@) == spec_family_symbols(f),
{
    let r: Vec<&'static str> = match f {
        UnitFamily::Length => vec!["m", "cm", "mm", "km", "ft", "in", "mi", "yd"],
        UnitFamily::Mass => vec!["g", "kg", "mg", "lb", "oz"],
        UnitFamily::Data => vec!["b", "kb", "mb", "gb", "tb"],
    };
    assert(r@.map_values(|s: &str| s@) =~= spec_family_symbols(f));
    r
}

fn index_in(f: UnitFamily, symbol: &str) -> (r: Option<usize>)
    ensures
        match spec_index_in(spec_family_symbols(f), symbol@) {
            Some(i) => r == Some(i as usize),
            None => r is None,
        },
{
    let table = family_table(f);
    let ghost t = spec_family_symbols(f);
    let mut i: usize = 0;
    while i < table.len()
        invariant
            i <= table@.len(),
            table@.map_values(|s: &str| s@) == t,
            t == spec_family_symbols(f),
            forall|j: int| 0 <= j < i ==> t[j] != symbol@,
        decreases table@.len() - i,
    {
        assert(t[i as int] == table@[i as int]@);
        if str_eq(table[i], symbol) {
            proof {
                lemma_symbols_distinct(f);
                assert forall|j: int| 0 <= j < t.len() && t[j] == symbol@ implies j == i by {
                    if j != i {
                        assert(t[j] != t[i as int]);
                    }
                }
                assert(exists|j: int| 0 <= j < t.len() && t[j] == symbol@);
            }
            return Some(i);
        }
        i += 1;
    }
    None
}

proof fn lemma_symbols_distinct(f: UnitFamily)
    ensures
        forall|a: int, b: int|
            0 <= a < spec_family_symbols(f).len() && 0 <= b < spec_family_symbols(f).len() && a
                != b ==> #[trigger] spec_family_symbols(f)[a] != #[trigger] spec_family_symbols(f)[b],
{
    reveal_strlit("m");
    reveal_strlit("cm");
    reveal_strlit("mm");
    reveal_strlit("km");
    reveal_strlit("ft");
    reveal_strlit("in");
    reveal_strlit("mi");
    reveal_strlit("yd");
    reveal_strlit("g");
    reveal_strlit("kg");
    reveal_strlit("mg");
    reveal_strlit("lb");
    reveal_strlit("oz");
    reveal_strlit("b");
    reveal_strlit("kb");
    reveal_strlit("mb");
    reveal_strlit("gb");
    reveal_strlit("tb");
    let t = spec_family_symbols(f);
    assert forall|a: int, b: int| 0 <= a < t.len() && 0 <= b < t.len() && a != b implies t[a] != t[b] by {
        if t[a].len() == t[b].len() {
            if t[a][0] == t[b][0] {
                assert(t[a][1] != t[b][1]);
            }
        }
    }
}

/// Look up a lower-cased linear unit symbol: its family and its position in
/// that family's table (length, mass, then data).
pub fn linear_unit(symbol: &str) -> (r: Option<(UnitFamily, usize)>)
    ensures
        match spec_linear_unit(symbol@) {
            Some((f, i)) => r == Some((f, i as usize)),
            None => r is None,
        },
{
    match index_in(UnitFamily::Length, symbol) {
        Some(i) => Some((UnitFamily::Length, i)),
        None => match index_in(UnitFamily::Mass, symbol) {
            Some(i) => Some((UnitFamily::Mass, i)),
            None => match index_in(UnitFamily::Data, symbol) {
                Some(i) => Some((UnitFamily::Data, i)),
                None => None,
            },
        },
    }
}

/// The display symbol of a data unit: upper-cased (`MB`, `GB`, `B`).
pub fn data_display_symbol(canonical: &str) -> (r: String)
    ensures
        r@ == spec_to_uppercase(canonical@),
{
    to_uppercase(canonical)
}

/// `<number> <from> to <to>`, lower-cased and trimmed: split at the first
/// ` to `; the target (trimmed) must be a single word; the left part
/// (trimmed) splits at its first space into the number text and the source
/// unit (trimmed), which must be a single word too.
pub open spec fn spec_split_conversion(text: Seq<char>) -> Option<(Seq<char>, Seq<char>, Seq<char>)> {
    let lower = spec_to_lowercase(spec_trim(text));
    match spec_find(lower, " to "@) {
        None => None,
        Some(i) => {
            let target = spec_trim(lower.skip(i + 4));
            if target.len() == 0 || target.contains(' ') {
                None
            } else {
                let left = spec_trim(lower.take(i));
                match spec_first_index_of(left, ' ') {
                    None => None,
                    Some(j) => {
                        let from = spec_trim(left.skip(j + 1));
                        if from.len() == 0 || from.contains(' ') {
                            None
                        } else {
                            Some((spec_trim(left.take(j)), from, target))
                        }
                    },
                }
            }
        },
    }
}

/// Split a conversion query into its number text, source unit and target
/// unit; parsing the number is the caller's.
pub fn split_conversion(text: &str) -> (r: Option<(String, String, String)>)
    ensures
        match spec_split_conversion(text@) {
            Some((n, f, t)) => r matches Some(x) && x.0@ == n && x.1@ == f && x.2@ == t,
            None => r is None,
        },
{
    let v = chars_vec(text);
    let tv = trim(&v);
    let ts = string_of(&tv);
    let lower_s = to_lowercase(ts.as_str());
    let lower = chars_vec(lower_s.as_str());
    proof {
        reveal_strlit(" to ");
    }
    let i = match find_first(&lower, " to ") {
        Some(i) => i,
        None => {
            return None;
        },
    };
    assert(" to "@.len() == 4);
    let after = slice_vec(&lower, i + 4, lower.len());
    assert(after@ =~= lower@.skip(i + 4));
    let target = trim(&after);
    if target.len() == 0 || contains_char(&target, ' ') {
        return None;
    }
    let before = slice_vec(&lower, 0, i);
    assert(before@ =~= lower@.take(i as int));
    let left = trim(&before);
    let j = match first_index_of(&left, 0, ' ') {
        Some(j) => j,
        None => {
            proof {
                assert(!(exists|k: int| 0 <= k < left@.len() && left@[k] == ' '));
            }
            return None;
        },
    };
    proof {
        lemma_first_index_unique(left@, ' ', j as int);
    }
    let rest = slice_vec(&left, j + 1, left.len());
    assert(rest@ =~= left@.skip(j + 1));
    let from = trim(&rest);
    if from.len() == 0 || contains_char(&from, ' ') {
        return None;
    }
    let num = slice_vec(&left, 0, j);
    assert(num@ =~= left@.take(j as int));
    let number = trim(&num);
    Some((string_of(&number), string_of(&from), string_of(&target)))
}

} // verus!
