//! Query parameters and the placeholders that refer to them: `$1` (by
//! position, counted from one) or `:name` (by name). One statement uses one
//! style only.
use vstd::prelude::*;

use crate::engine_types::{engine_value_same, EngineValue};
use crate::numbers::{parse_usize, parse_usize_spec};
use crate::sql_ast::{SqlExpr, SqlValue};
use crate::text::{concat, decimal, decimal_string, str_eq};

verus! {

/// Errors of translating SQL for the storage engine.
#[derive(Debug)]
pub enum TranslateError {
    SqlParse(String),
    UnsupportedStatement,
    UnknownTable(String),
    UnknownColumn(String),
    UnsupportedFeature(String),
    MissingPositionalParameter(usize),
    MissingNamedParameter(String),
    MixedParameterStyles,
    InvalidParameterPlaceholder(String),
}

pub open spec fn translate_error_text(e: TranslateError) -> Seq<char> {
    match e {
        TranslateError::SqlParse(m) => "sql parse error: "@ + m@,
        TranslateError::UnsupportedStatement => "unsupported statement"@,
        TranslateError::UnknownTable(t) => "unknown table: "@ + t@,
        TranslateError::UnknownColumn(c) => "unknown column: "@ + c@,
        TranslateError::UnsupportedFeature(f) => "unsupported feature: "@ + f@,
        TranslateError::MissingPositionalParameter(i) => "missing positional parameter: $"@ + decimal(i as nat),
        TranslateError::MissingNamedParameter(n) => "missing named parameter: :"@ + n@,
        TranslateError::MixedParameterStyles => "cannot mix positional and named parameters in one SQL statement"@,
        TranslateError::InvalidParameterPlaceholder(p) => "invalid parameter placeholder: "@ + p@,
    }
}

impl TranslateError {
    /// The text of the error.
    pub fn message(&self) -> (r: String)
        ensures
            r@ == translate_error_text(*self),
    {
        match self {
            TranslateError::SqlParse(m) => concat("sql parse error: ", m.as_str()),
            TranslateError::UnsupportedStatement => String::from_str("unsupported statement"),
            TranslateError::UnknownTable(t) => concat("unknown table: ", t.as_str()),
            TranslateError::UnknownColumn(c) => concat("unknown column: ", c.as_str()),
            TranslateError::UnsupportedFeature(f) => concat("unsupported feature: ", f.as_str()),
            TranslateError::MissingPositionalParameter(i) => {
                concat("missing positional parameter: $", decimal_string(*i as u64).as_str())
            },
            TranslateError::MissingNamedParameter(n) => concat("missing named parameter: :", n.as_str()),
            TranslateError::MixedParameterStyles => String::from_str(
                "cannot mix positional and named parameters in one SQL statement",
            ),
            TranslateError::InvalidParameterPlaceholder(p) => concat("invalid parameter placeholder: ", p.as_str()),
        }
    }
}

#[derive(Clone, Copy, Debug, PartialEq, Eq, Structural)]
pub enum PlaceholderStyle {
    Positional,
    Named,
}

#[derive(Debug)]
pub enum PlaceholderToken {
    Positional(usize),
    Named(String),
}

/// What a placeholder text reads as: a positive position or a name; `None`
/// for an invalid placeholder.
pub open spec fn placeholder_spec(raw: Seq<char>) -> Option<(bool, usize, Seq<char>)> {
    if raw.len() > 0 && raw[0] == '$' {
        match parse_usize_spec(raw.drop_first()) {
            Some(n) => if n == 0 { None } else { Some((true, n, Seq::empty())) },
            None => None,
        }
    } else if raw.len() > 0 && raw[0] == ':' {
        if raw.len() == 1 { None } else { Some((false, 0, raw.drop_first())) }
    } else if raw == "?"@ {
        None
    } else if parse_usize_spec(raw) is Some {
        if parse_usize_spec(raw)->Some_0 == 0 { None } else { Some((true, parse_usize_spec(raw)->Some_0, Seq::empty())) }
    } else if raw.len() == 0 {
        None
    } else {
        Some((false, 0, raw))
    }
}

/// A placeholder token against what its text reads as.
pub open spec fn token_is(t: PlaceholderToken, p: (bool, usize, Seq<char>)) -> bool {
    match t {
        PlaceholderToken::Positional(n) => p.0 && p.1 == n,
        PlaceholderToken::Named(name) => !p.0 && p.2 == name@,
    }
}

fn is_question_mark(raw: &str) -> (r: bool)
    ensures
        r == (raw@ == "?"@),
{
    proof { reveal_strlit("?"); }
    str_eq(raw, "?")
}

/// Reads a placeholder: `$n` or a bare number `n` (n at least one) is
/// positional, `:name` or any other non-empty text but `?` is named.
pub fn parse_placeholder(raw: &str) -> (r: Result<PlaceholderToken, TranslateError>)
    ensures
        match r {
            Ok(t) => placeholder_spec(raw@) matches Some(p) && token_is(t, p),
            Err(e) => placeholder_spec(raw@) is None
                && (e matches TranslateError::InvalidParameterPlaceholder(s) && s@ == raw@),
        },
{
    let n = raw.unicode_len();
    let invalid = TranslateError::InvalidParameterPlaceholder(String::from_str(raw));
    if n > 0 && raw.get_char(0) == '$' {
        let rest = raw.substring_char(1, n);
        assert(rest@ == raw@.drop_first());
        return match parse_usize(rest) {
            Some(index) => if index == 0 { Err(invalid) } else { Ok(PlaceholderToken::Positional(index)) },
            None => Err(invalid),
        };
    }
    if n > 0 && raw.get_char(0) == ':' {
        let name = raw.substring_char(1, n);
        assert(name@ == raw@.drop_first());
        if n == 1 {
            return Err(invalid);
        }
        return Ok(PlaceholderToken::Named(String::from_str(name)));
    }
    if is_question_mark(raw) {
        return Err(invalid);
    }
    if let Some(parsed) = parse_usize(raw) {
        if parsed == 0 {
            return Err(invalid);
        }
        return Ok(PlaceholderToken::Positional(parsed));
    }
    if n == 0 {
        return Err(invalid);
    }
    Ok(PlaceholderToken::Named(String::from_str(raw)))
}

/// The parameters of a statement: by position, and by name.
#[derive(Debug)]
pub struct SqlParams {
    pub positional: Vec<EngineValue>,
    pub named: Vec<(String, EngineValue)>,
}

/// The value bound to `name`: the latest binding wins.
pub open spec fn named_lookup(named: Seq<(String, EngineValue)>, name: Seq<char>) -> Option<EngineValue>
    decreases named.len(),
{
    if named.len() == 0 {
        None
    } else if named.last().0@ == name {
        Some(named.last().1)
    } else {
        named_lookup(named.drop_last(), name)
    }
}

impl SqlParams {
    /// No parameters.
    pub fn new() -> (r: SqlParams)
        ensures
            r.positional@.len() == 0,
            r.named@.len() == 0,
    {
        SqlParams { positional: Vec::new(), named: Vec::new() }
    }

    /// Positional parameters, `$1` being the first.
    pub fn from_positional(values: Vec<EngineValue>) -> (r: SqlParams)
        ensures
            r.positional == values,
            r.named@.len() == 0,
    {
        SqlParams { positional: values, named: Vec::new() }
    }

    /// Named parameters.
    pub fn named(values: Vec<(String, EngineValue)>) -> (r: SqlParams)
        ensures
            r.named == values,
            r.positional@.len() == 0,
    {
        SqlParams { positional: Vec::new(), named: values }
    }

    /// The value of `$index`.
    pub fn get_positional(&self, index: usize) -> (r: Option<&EngineValue>)
        ensures
            match r {
                Some(v) => 1 <= index <= self.positional@.len() && *v == self.positional@[index - 1],
                None => index == 0 || index > self.positional@.len(),
            },
    {
        if index >= 1 && index <= self.positional.len() {
            Some(&self.positional[index - 1])
        } else {
            None
        }
    }

    /// The value of `:name`.
    pub fn get_named(&self, name: &str) -> (r: Option<&EngineValue>)
        ensures
            match r {
                Some(v) => named_lookup(self.named@, name@) == Some(*v),
                None => named_lookup(self.named@, name@) is None,
            },
    {
        let mut i: usize = self.named.len();
        assert(self.named@.take(i as int) == self.named@);
        while i > 0
            invariant
                i <= self.named@.len(),
                named_lookup(self.named@, name@) == named_lookup(self.named@.take(i as int), name@),
            decreases i,
        {
            let ghost pre = self.named@.take(i as int);
            assert(pre.last() == self.named@[i - 1]);
            assert(pre.drop_last() == self.named@.take(i - 1));
            if str_eq(self.named[i - 1].0.as_str(), name) {
                return Some(&self.named[i - 1].1);
            }
            i = i - 1;
        }
        None
    }
}

/// The style state after a placeholder of `style` is met: `None` when the
/// statement already used the other style.
pub open spec fn style_step(state: Option<PlaceholderStyle>, style: PlaceholderStyle) -> Option<Option<PlaceholderStyle>> {
    match state {
        Some(previous) => if previous != style { None } else { Some(state) },
        None => Some(Some(style)),
    }
}

/// Resolves the placeholders of one statement against its parameters.
pub struct ParamsValueMapper<'a> {
    pub params: &'a SqlParams,
    pub style: Option<PlaceholderStyle>,
}

/// The outcome of resolving placeholder text `raw` in style state `state`.
pub open spec fn resolve_ok(params: SqlParams, state: Option<PlaceholderStyle>, raw: Seq<char>, v: EngineValue) -> bool {
    &&& placeholder_spec(raw) matches Some(p)
    &&& if p.0 {
        style_step(state, PlaceholderStyle::Positional) is Some
            && 1 <= p.1 <= params.positional@.len() && engine_value_same(params.positional@[p.1 - 1], v)
    } else {
        style_step(state, PlaceholderStyle::Named) is Some
            && (named_lookup(params.named@, p.2) matches Some(x) && engine_value_same(x, v))
    }
}

pub open spec fn resolve_err(params: SqlParams, state: Option<PlaceholderStyle>, raw: Seq<char>, e: TranslateError) -> bool {
    match placeholder_spec(raw) {
        None => e matches TranslateError::InvalidParameterPlaceholder(s) && s@ == raw,
        Some(p) => if p.0 {
            if style_step(state, PlaceholderStyle::Positional) is None {
                e is MixedParameterStyles
            } else {
                !(1 <= p.1 <= params.positional@.len()) && e == TranslateError::MissingPositionalParameter(p.1)
            }
        } else {
            if style_step(state, PlaceholderStyle::Named) is None {
                e is MixedParameterStyles
            } else {
                named_lookup(params.named@, p.2) is None
                    && (e matches TranslateError::MissingNamedParameter(n) && n@ == p.2)
            }
        },
    }
}

/// The style a successfully parsed placeholder has.
pub open spec fn style_of(raw: Seq<char>) -> PlaceholderStyle {
    if placeholder_spec(raw)->Some_0.0 { PlaceholderStyle::Positional } else { PlaceholderStyle::Named }
}

impl<'a> ParamsValueMapper<'a> {
    pub fn new(params: &'a SqlParams) -> (r: ParamsValueMapper<'a>)
        ensures
            r.params == params,
            r.style is None,
    {
        ParamsValueMapper { params, style: None }
    }

    /// Records the style of a placeholder; refuses a style other than the
    /// one met first.
    pub fn enforce_style(&mut self, style: PlaceholderStyle) -> (r: Result<(), TranslateError>)
        ensures
            final(self).params == old(self).params,
            match style_step(old(self).style, style) {
                Some(next) => r is Ok && final(self).style == next,
                None => (r matches Err(e) && e is MixedParameterStyles) && final(self).style == old(self).style,
            },
    {
        match self.style {
            Some(previous) => {
                if previous != style {
                    Err(TranslateError::MixedParameterStyles)
                } else {
                    Ok(())
                }
            },
            None => {
                self.style = Some(style);
                Ok(())
            },
        }
    }

    /// The placeholder text of an expression that is a placeholder, possibly
    /// within casts.
    pub fn extract_placeholder(expr: &SqlExpr) -> (r: Option<&String>)
        ensures
            match r {
                Some(s) => placeholder_of(*expr) == Some(*s),
                None => placeholder_of(*expr) is None,
            },
        decreases expr,
    {
        match expr {
            SqlExpr::Value(SqlValue::Placeholder { raw, debug: _ }) => Some(raw),
            SqlExpr::Cast(inner) => Self::extract_placeholder(inner),
            SqlExpr::CastUuid(inner) => Self::extract_placeholder(inner),
            _ => None,
        }
    }

    /// The value a placeholder text stands for.
    pub fn resolve_placeholder(&mut self, raw: &str) -> (r: Result<EngineValue, TranslateError>)
        ensures
            final(self).params == old(self).params,
            match r {
                Ok(v) => resolve_ok(*old(self).params, old(self).style, raw@, v)
                    && final(self).style == Some(style_of(raw@)),
                Err(e) => resolve_err(*old(self).params, old(self).style, raw@, e),
            },
    {
        match parse_placeholder(raw)? {
            PlaceholderToken::Positional(index) => {
                self.enforce_style(PlaceholderStyle::Positional)?;
                match self.params.get_positional(index) {
                    Some(v) => Ok(v.duplicate()),
                    None => Err(TranslateError::MissingPositionalParameter(index)),
                }
            },
            PlaceholderToken::Named(name) => {
                self.enforce_style(PlaceholderStyle::Named)?;
                match self.params.get_named(name.as_str()) {
                    Some(v) => Ok(v.duplicate()),
                    None => Err(TranslateError::MissingNamedParameter(name)),
                }
            },
        }
    }
}

/// The placeholder an expression consists of, looking through casts.
pub open spec fn placeholder_of(e: SqlExpr) -> Option<String>
    decreases e,
{
    match e {
        SqlExpr::Value(SqlValue::Placeholder { raw, debug }) => Some(raw),
        SqlExpr::Cast(inner) => placeholder_of(*inner),
        SqlExpr::CastUuid(inner) => placeholder_of(*inner),
        _ => None,
    }
}

/// Once a statement has used one placeholder style, a placeholder of the
/// other style is refused and the recorded style stays; a placeholder of the
/// same style is accepted.
pub proof fn law_style_is_sticky(first: PlaceholderStyle, second: PlaceholderStyle)
    ensures
        style_step(None, first) == Some(Some(first)),
        first != second ==> style_step(Some(first), second) is None,
        style_step(Some(first), first) == Some(Some(first)),
{
}

} // verus!
