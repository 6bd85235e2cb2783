use crate::ast::{Ast, AstNode, ast_view, asts_view};
use std::rc::Rc;
use vstd::prelude::*;
use vstd::string::StringExecFns;

verus! {

broadcast use {
    vstd::seq::axiom_seq_index_decreases,
    vstd::seq::axiom_seq_subrange_decreases,
    vstd::std_specs::vec::axiom_vec_decreases_to_view,
};

/// The built-in functions that a scope can hold.
#[derive(Debug, Clone, Copy, PartialEq, Eq)]
pub enum Builtin {
    /// Writes the display forms of its arguments, run together, as one line.
    Print,
}

/// A built-in function: its name and what it does.
#[derive(Debug, PartialEq, Eq)]
pub struct BuiltinFunctionData {
    pub name: String,
    pub func: Builtin,
}

/// A runtime value. Values are shared by reference count.
#[derive(Debug, PartialEq, Eq)]
pub enum Value {
    Integer(i64),
    String(String),
    List(Vec<Rc<Value>>),
    /// A block of statements kept as data, not run.
    StatementBlock(Vec<AstNode>),
    /// A block of one expression kept as data, not run.
    ExpressionBlock(Box<AstNode>),
    BuiltinFunction(BuiltinFunctionData),
    Unit,
}

/// The mathematical model of a value.
pub enum ValueV {
    Integer(i64),
    Str(Seq<char>),
    List(Seq<ValueV>),
    StatementBlock(Seq<Ast>),
    ExpressionBlock(Ast),
    BuiltinFunction(Seq<char>, Builtin),
    Unit,
}

pub open spec fn value_view(v: Value) -> ValueV
    decreases v,
{
    match v {
        Value::Integer(n) => ValueV::Integer(n),
        Value::String(s) => ValueV::Str(s@),
        Value::List(l) => ValueV::List(values_view(l@)),
        Value::StatementBlock(b) => ValueV::StatementBlock(asts_view(b@)),
        Value::ExpressionBlock(e) => ValueV::ExpressionBlock(ast_view(*e)),
        Value::BuiltinFunction(d) => ValueV::BuiltinFunction(d.name@, d.func),
        Value::Unit => ValueV::Unit,
    }
}

pub open spec fn values_view(s: Seq<Rc<Value>>) -> Seq<ValueV>
    decreases s,
{
    if s.len() == 0 {
        Seq::empty()
    } else {
        values_view(s.drop_last()).push(value_view(*s.last()))
    }
}

impl View for Value {
    type V = ValueV;

    open spec fn view(&self) -> ValueV {
        value_view(*self)
    }
}

/// The character of a decimal digit.
pub open spec fn digit_char(d: nat) -> char {
    seq!['0', '1', '2', '3', '4', '5', '6', '7', '8', '9'][d as int]
}

/// The decimal digits of a natural number.
pub open spec fn decimal_digits(n: nat) -> Seq<char>
    decreases n,
{
    let last = digit_char(n % 10);
    if n < 10 {
        seq![last]
    } else {
        decimal_digits(n / 10) + seq![last]
    }
}

/// The decimal form of an integer, with a leading `-` when negative.
pub open spec fn decimal(n: int) -> Seq<char> {
    if n < 0 {
        seq!['-'] + decimal_digits((-n) as nat)
    } else {
        decimal_digits(n as nat)
    }
}

/// What std's `Debug` writes for a string: the text quoted, with escapes.
pub uninterp spec fn debug_quoted(s: Seq<char>) -> Seq<char>;

/// The display form of a value: a function shows its name; a block has
/// none.
pub open spec fn display(v: ValueV) -> Option<Seq<char>>
    decreases v,
{
    match v {
        ValueV::Integer(n) => Some(decimal(n as int)),
        ValueV::Str(s) => Some(s),
        ValueV::List(items) => match list_body(items) {
            Some(b) => Some(seq!['['] + b + seq![']']),
            None => None,
        },
        ValueV::Unit => Some(seq!['(', ')']),
        ValueV::BuiltinFunction(name, _) => Some(name),
        _ => None,
    }
}

/// The elements of a list, separated by single spaces; strings quoted.
pub open spec fn list_body(items: Seq<ValueV>) -> Option<Seq<char>>
    decreases items,
{
    if items.len() == 0 {
        Some(Seq::empty())
    } else {
        let last = items.last();
        let shown = match last {
            ValueV::Str(s) => Some(debug_quoted(s)),
            _ => display(last),
        };
        match (list_body(items.drop_last()), shown) {
            (Some(a), Some(b)) => Some(
                if items.len() == 1 {
                    b
                } else {
                    a + seq![' '] + b
                },
            ),
            _ => None,
        }
    }
}

/// The text of one decimal digit.
fn digit_text(d: u64) -> (r: &'static str)
    requires
        d < 10,
    ensures
        r@ =~= seq![digit_char(d as nat)],
{
    if d == 0 {
        proof {
            reveal_strlit("0");
        }
        "0"
    } else if d == 1 {
        proof {
            reveal_strlit("1");
        }
        "1"
    } else if d == 2 {
        proof {
            reveal_strlit("2");
        }
        "2"
    } else if d == 3 {
        proof {
            reveal_strlit("3");
        }
        "3"
    } else if d == 4 {
        proof {
            reveal_strlit("4");
        }
        "4"
    } else if d == 5 {
        proof {
            reveal_strlit("5");
        }
        "5"
    } else if d == 6 {
        proof {
            reveal_strlit("6");
        }
        "6"
    } else if d == 7 {
        proof {
            reveal_strlit("7");
        }
        "7"
    } else if d == 8 {
        proof {
            reveal_strlit("8");
        }
        "8"
    } else {
        proof {
            reveal_strlit("9");
        }
        "9"
    }
}

/// Appends the decimal digits of `m`, most significant first.
fn append_digits(out: &mut String, m: u64)
    ensures
        final(out)@ == old(out)@ + decimal_digits(m as nat),
    decreases m,
{
    if m >= 10 {
        append_digits(out, m / 10);
    }
    out.append(digit_text(m % 10));
    proof {
        if m >= 10 {
            assert(old(out)@ + decimal_digits((m / 10) as nat) + seq![digit_char((m % 10) as nat)]
                =~= old(out)@ + decimal_digits(m as nat));
        } else {
            assert(decimal_digits(m as nat) == seq![digit_char((m % 10) as nat)]);
        }
    }
}

/// The decimal form of an integer.
fn decimal_text(n: i64) -> (r: String)
    ensures
        r@ == decimal(n as int),
{
    let mut text = String::new();
    let magnitude: u64 = if n >= 0 {
        n as u64
    } else if n == i64::MIN {
        9_223_372_036_854_775_808u64
    } else {
        (-n) as u64
    };
    if n < 0 {
        proof {
            reveal_strlit("-");
        }
        text.append("-");
    }
    append_digits(&mut text, magnitude);
    assert(text@ =~= decimal(n as int));
    text
}

/// Relies on std's `Debug` for `str`.
#[verifier::external_body]
fn debug_text(s: &String) -> (r: String)
    ensures
        r@ == debug_quoted(s@),
{
    format!("{:?}", s)
}

impl Value {
    /// A built-in function value.
    pub fn builtin_function(name: &str, func: Builtin) -> (r: Value)
        ensures
            r@ == ValueV::BuiltinFunction(name@, func),
    {
        Value::BuiltinFunction(BuiltinFunctionData { name: name.to_owned(), func })
    }

    /// The display form of the value: a function shows its name; `None`
    /// for a block.
    pub fn display(&self) -> (r: Option<String>)
        ensures
            match r {
                Some(s) => display(self@) == Some(s@),
                None => display(self@) is None,
            },
        decreases self, 0int,
    {
        match self {
            Value::Integer(n) => Some(decimal_text(*n)),
            Value::String(s) => Some(s.clone()),
            Value::List(l) => {
                let mut out = String::new();
                proof {
                    reveal_strlit("[");
                    reveal_strlit("]");
                    reveal_strlit(" ");
                }
                out.append("[");
                let mut i: usize = 0;
                assert(values_view(l@).subrange(0, 0) =~= Seq::<ValueV>::empty());
                proof {
                    lemma_values_view_len(l@);
                }
                while i < l.len()
                    invariant
                        *self == Value::List(*l),
                        i <= l@.len(),
                        values_view(l@).len() == l@.len(),
                        list_body(values_view(l@).subrange(0, i as int)) is Some,
                        out@ == seq!['['] + list_body(values_view(l@).subrange(0, i as int))->Some_0,
                    decreases l@.len() - i,
                {
                    let ghost before = values_view(l@).subrange(0, i as int);
                    let ghost next = values_view(l@).subrange(0, i + 1);
                    proof {
                        lemma_values_view_index(l@, i as int);
                        assert(next.drop_last() =~= before);
                    }
                    let item: &Value = &l[i];
                    proof {
                        assert(decreases_to!(l@ => l@[i as int]));
                        assert(decreases_to!(*self => l));
                    }
                    let shown = match item.fmt_list_element() {
                        Some(t) => t,
                        None => {
                            proof {
                                lemma_list_body_prefix(values_view(l@), i + 1);
                            }
                            return None;
                        },
                    };
                    if i > 0 {
                        out.append(" ");
                    }
                    out.append(shown.as_str());
                    proof {
                        reveal_strlit(" ");
                        if i > 0 {
                            assert(out@ =~= seq!['['] + (before_body(before) + seq![' '] + shown@));
                        } else {
                            assert(out@ =~= seq!['['] + shown@);
                        }
                    }
                    i = i + 1;
                }
                assert(values_view(l@).subrange(0, l@.len() as int) =~= values_view(l@));
                proof {
                    reveal_strlit("]");
                }
                out.append("]");
                Some(out)
            },
            Value::Unit => {
                proof {
                    reveal_strlit("()");
                }
                let s = "()".to_owned();
                assert(s@ =~= seq!['(', ')']);
                Some(s)
            },
            Value::BuiltinFunction(d) => Some(d.name.clone()),
            _ => None,
        }
    }

    /// The form of the value as a list element: strings quoted.
    fn fmt_list_element(&self) -> (r: Option<String>)
        ensures
            match r {
                Some(s) => Some(s@) == match self@ {
                    ValueV::Str(s) => Some(debug_quoted(s)),
                    v => display(v),
                },
                None => display(self@) is None && !(self@ is Str),
            },
        decreases self, 1int,
    {
        match self {
            Value::String(s) => Some(debug_text(s)),
            _ => self.display(),
        }
    }
}

proof fn lemma_list_body_prefix(items: Seq<ValueV>, k: int)
    requires
        0 <= k <= items.len(),
        list_body(items.subrange(0, k)) is None,
    ensures
        list_body(items) is None,
    decreases items.len(),
{
    if k == items.len() {
        assert(items.subrange(0, k) =~= items);
    } else {
        assert(items.drop_last().subrange(0, k) =~= items.subrange(0, k));
        lemma_list_body_prefix(items.drop_last(), k);
    }
}

spec fn before_body(before: Seq<ValueV>) -> Seq<char> {
    list_body(before)->Some_0
}

pub proof fn lemma_values_view_index(s: Seq<Rc<Value>>, i: int)
    requires
        0 <= i < s.len(),
    ensures
        values_view(s).len() == s.len(),
        values_view(s)[i] == value_view(*s[i]),
    decreases s.len(),
{
    if i < s.len() - 1 {
        lemma_values_view_index(s.drop_last(), i);
    } else {
        lemma_values_view_len(s.drop_last());
    }
}

pub proof fn lemma_values_view_push(s: Seq<Rc<Value>>, v: Rc<Value>)
    ensures
        values_view(s.push(v)) == values_view(s).push(value_view(*v)),
{
    assert(s.push(v).drop_last() =~= s);
}

pub proof fn lemma_values_view_len(s: Seq<Rc<Value>>)
    ensures
        values_view(s).len() == s.len(),
    decreases s.len(),
{
    if s.len() > 0 {
        lemma_values_view_len(s.drop_last());
    }
}

} // verus!
