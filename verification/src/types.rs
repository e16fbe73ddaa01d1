//! The `RuntimeType` algebra: a recursive type expression together with its
//! textual grammar. `render` prints a value to its canonical string;
//! `from_str` parses a string back; `flatten_complex` lists the named types a
//! value references. The grammar round-trips: see
//! `lemma_parse_render_roundtrip`.

use vstd::prelude::*;
use vstd::string::StrSliceExecFns;
use vstd::string::StringExecFns;

use crate::error::Error;
use crate::text::find_first;
use crate::text::find_last;
use crate::text::is_prefix;
use crate::text::is_space;
use crate::text::lemma_find_first;
use crate::text::lemma_find_first_is;
use crate::text::lemma_find_first_none;
use crate::text::lemma_find_last;
use crate::text::lemma_strip_scope_len;
use crate::text::lemma_trim_len;
use crate::text::str_contains_char;
use crate::text::str_eq;
use crate::text::str_find_first;
use crate::text::str_find_last;
use crate::text::str_starts_with;
use crate::text::strip_colons;
use crate::text::strip_colons_str;
use crate::text::strip_scope;
use crate::text::strip_scope_str;
use crate::text::trim_spec;
use crate::text::trim_str;

verus! {

/// Ghost form of a type expression, with names as character sequences.
#[verifier::ext_equal]
pub enum TypeModel {
    Primitive(Seq<char>),
    Complex(Seq<char>),
    Option(Box<TypeModel>),
    Vec(Box<TypeModel>),
    Tuple(Seq<TypeModel>),
}

/// A recursive type expression read from the metadata: a scalar, a named
/// type, an optional or sequence wrapper, or a tuple (possibly empty).
#[derive(Debug, Eq, PartialEq, Hash)]
pub enum RuntimeType {
    Primitive(String),
    Complex(String),
    Option(Box<RuntimeType>),
    Vec(Box<RuntimeType>),
    Tuple(Vec<RuntimeType>),
}

pub open spec fn rt_view(t: RuntimeType) -> TypeModel
    decreases t,
{
    match t {
        RuntimeType::Primitive(n) => TypeModel::Primitive(n@),
        RuntimeType::Complex(n) => TypeModel::Complex(n@),
        RuntimeType::Option(b) => TypeModel::Option(Box::new(rt_view(*b))),
        RuntimeType::Vec(b) => TypeModel::Vec(Box::new(rt_view(*b))),
        RuntimeType::Tuple(ts) => TypeModel::Tuple(rt_seq_view(ts@)),
    }
}

pub open spec fn rt_seq_view(ts: Seq<RuntimeType>) -> Seq<TypeModel>
    decreases ts,
{
    if ts.len() == 0 {
        Seq::empty()
    } else {
        seq![rt_view(ts[0])] + rt_seq_view(ts.drop_first())
    }
}

impl View for RuntimeType {
    type V = TypeModel;

    open spec fn view(&self) -> TypeModel {
        rt_view(*self)
    }
}

pub proof fn lemma_rt_seq_view(ts: Seq<RuntimeType>)
    ensures
        rt_seq_view(ts).len() == ts.len(),
        forall|i: int| 0 <= i < ts.len() ==> rt_seq_view(ts)[i] == rt_view(ts[i]),
    decreases ts,
{
    if ts.len() > 0 {
        lemma_rt_seq_view(ts.drop_first());
        assert forall|i: int| 0 <= i < ts.len() implies rt_seq_view(ts)[i] == rt_view(ts[i]) by {
            if i > 0 {
                assert(rt_seq_view(ts.drop_first())[i - 1] == rt_view(ts.drop_first()[i - 1]));
                assert(ts.drop_first()[i - 1] == ts[i]);
            }
        }
    }
}

/// The closed set of scalar names the grammar recognizes.
pub open spec fn is_primitive_name(s: Seq<char>) -> bool {
    ||| s == "bool"@
    ||| s == "usize"@
    ||| s == "u8"@
    ||| s == "u16"@
    ||| s == "u32"@
    ||| s == "u64"@
    ||| s == "u128"@
    ||| s == "isize"@
    ||| s == "i8"@
    ||| s == "i16"@
    ||| s == "i32"@
    ||| s == "i64"@
    ||| s == "i128"@
}

fn is_primitive_str(s: &str) -> (r: bool)
    ensures
        r == is_primitive_name(s@),
{
    str_eq(s, "bool") || str_eq(s, "usize") || str_eq(s, "u8") || str_eq(s, "u16") || str_eq(
        s,
        "u32",
    ) || str_eq(s, "u64") || str_eq(s, "u128") || str_eq(s, "isize") || str_eq(s, "i8") || str_eq(
        s,
        "i16",
    ) || str_eq(s, "i32") || str_eq(s, "i64") || str_eq(s, "i128")
}

/// Canonical string form: scalars print bare, named types with a `T::`
/// scope, wrappers with angle brackets, tuples parenthesized and
/// comma-separated.
pub open spec fn render_spec(t: TypeModel) -> Seq<char>
    decreases t,
{
    match t {
        TypeModel::Primitive(n) => n,
        TypeModel::Complex(n) => "T::"@ + n,
        TypeModel::Option(b) => "Option<"@ + render_spec(*b) + ">"@,
        TypeModel::Vec(b) => "Vec<"@ + render_spec(*b) + ">"@,
        TypeModel::Tuple(ts) => "("@ + render_list_spec(ts) + ")"@,
    }
}

pub open spec fn render_list_spec(ts: Seq<TypeModel>) -> Seq<char>
    decreases ts,
{
    if ts.len() == 0 {
        Seq::empty()
    } else if ts.len() == 1 {
        render_spec(ts[0])
    } else {
        render_spec(ts[0]) + ","@ + render_list_spec(ts.drop_first())
    }
}

/// The generic span of a named type removed: everything from the first `<`
/// to the last `>`, when both are present.
pub open spec fn outer_span_removed(s: Seq<char>) -> Seq<char> {
    match (find_first(s, '<'), find_last(s, '>')) {
        (Some(i), Some(k)) => s.subrange(0, i) + s.subrange(k + 1, s.len() as int),
        _ => s,
    }
}

/// Parse: trim, strip a leading `T::`, then the first matching grammar rule:
/// scalar, `Option<...>`, `Vec<...>`, tuple, else named type.
pub open spec fn parse_spec(input: Seq<char>) -> TypeModel
    decreases input.len(), 1int,
{
    proof {
        lemma_trim_len(input);
        lemma_strip_scope_len(trim_spec(input));
    }
    parse_core(strip_scope(trim_spec(input)))
}

pub open spec fn parse_core(s: Seq<char>) -> TypeModel
    decreases s.len(), 0int,
{
    if is_primitive_name(s) {
        TypeModel::Primitive(s)
    } else if is_prefix("Option<"@, s) && s.contains('>') {
        proof {
            lemma_lits();
        }
        let k0 = match find_last(s, '>') {
            Some(i) => i,
            None => 7,
        };
        let k = if k0 < 7 {
            7
        } else if k0 > s.len() {
            s.len() as int
        } else {
            k0
        };
        TypeModel::Option(Box::new(parse_spec(s.subrange(7, k))))
    } else if is_prefix("Vec<"@, s) && s.contains('>') {
        proof {
            lemma_lits();
        }
        let k0 = match find_last(s, '>') {
            Some(i) => i,
            None => 4,
        };
        let k = if k0 < 4 {
            4
        } else if k0 > s.len() {
            s.len() as int
        } else {
            k0
        };
        TypeModel::Vec(Box::new(parse_spec(s.subrange(4, k))))
    } else if is_prefix("("@, s) && s.contains(')') {
        proof {
            lemma_lits();
        }
        let k0 = match find_last(s, ')') {
            Some(i) => i,
            None => 1,
        };
        let k = if k0 < 1 {
            1
        } else if k0 > s.len() {
            s.len() as int
        } else {
            k0
        };
        let interior = s.subrange(1, k);
        if interior.len() == 0 {
            TypeModel::Tuple(Seq::empty())
        } else {
            TypeModel::Tuple(parse_list(interior))
        }
    } else {
        TypeModel::Complex(strip_colons(outer_span_removed(s)))
    }
}

/// Tuple interiors split on every comma, each piece parsed.
pub open spec fn parse_list(s: Seq<char>) -> Seq<TypeModel>
    decreases s.len(), 2int,
{
    proof {
        lemma_find_first(s, ',');
    }
    match find_first(s, ',') {
        None => seq![parse_spec(s)],
        Some(i) => seq![parse_spec(s.subrange(0, i))] + parse_list(
            s.subrange(i + 1, s.len() as int),
        ),
    }
}

/// All `Complex` names transitively reachable from a type expression, in
/// left-to-right order.
pub open spec fn flatten_spec(t: TypeModel) -> Seq<Seq<char>>
    decreases t,
{
    match t {
        TypeModel::Primitive(_) => Seq::empty(),
        TypeModel::Complex(n) => seq![n],
        TypeModel::Option(b) => flatten_spec(*b),
        TypeModel::Vec(b) => flatten_spec(*b),
        TypeModel::Tuple(ts) => flatten_list(ts),
    }
}

pub open spec fn flatten_list(ts: Seq<TypeModel>) -> Seq<Seq<char>>
    decreases ts,
{
    if ts.len() == 0 {
        Seq::empty()
    } else {
        flatten_spec(ts[0]) + flatten_list(ts.drop_first())
    }
}

/// Characters a bare named-type identifier may contain: no grammar
/// metacharacter and no whitespace.
pub open spec fn ident_char_ok(c: char) -> bool {
    &&& !is_space(c)
    &&& c != '<'
    &&& c != '>'
    &&& c != '('
    &&& c != ')'
    &&& c != ','
    &&& c != ':'
}

pub open spec fn ident_ok(s: Seq<char>) -> bool {
    s.len() > 0 && (forall|i: int| 0 <= i < s.len() ==> ident_char_ok(s[i]))
}

/// Values on which the grammar round-trips: scalar names from the closed
/// set, bare identifiers as named types, and tuples whose elements render
/// without commas (a nested multi-element tuple inside a tuple element is the
/// documented limitation of the comma split).
pub open spec fn wf_type(t: TypeModel) -> bool
    decreases t,
{
    match t {
        TypeModel::Primitive(n) => is_primitive_name(n),
        TypeModel::Complex(n) => ident_ok(n) && !is_primitive_name(n),
        TypeModel::Option(b) => wf_type(*b),
        TypeModel::Vec(b) => wf_type(*b),
        TypeModel::Tuple(ts) => wf_list(ts),
    }
}

pub open spec fn wf_list(ts: Seq<TypeModel>) -> bool
    decreases ts,
{
    if ts.len() == 0 {
        true
    } else {
        &&& wf_type(ts[0])
        &&& !render_spec(ts[0]).contains(',')
        &&& wf_list(ts.drop_first())
    }
}

/// Shapes of the grammar's literal tokens.
pub proof fn lemma_lits()
    ensures
        "T::"@.len() == 3 && "T::"@[0] == 'T' && "T::"@[1] == ':' && "T::"@[2] == ':',
        "Option<"@.len() == 7 && "Option<"@[0] == 'O' && "Option<"@[6] == '<',
        forall|j: int| 0 <= j < 7 ==> "Option<"@[j] != '>',
        "Vec<"@.len() == 4 && "Vec<"@[0] == 'V' && "Vec<"@[3] == '<',
        forall|j: int| 0 <= j < 4 ==> "Vec<"@[j] != '>',
        "("@.len() == 1 && "("@[0] == '(',
        ")"@.len() == 1 && ")"@[0] == ')',
        ">"@.len() == 1 && ">"@[0] == '>',
        ","@.len() == 1 && ","@[0] == ',',
{
    reveal_strlit("T::");
    reveal_strlit("Option<");
    reveal_strlit("Vec<");
    reveal_strlit("(");
    reveal_strlit(")");
    reveal_strlit(">");
    reveal_strlit(",");
}

/// Every scalar name is short, starts with `b`, `u` or `i`, and has no
/// whitespace at either end.
proof fn lemma_primitive_shape(s: Seq<char>)
    requires
        is_primitive_name(s),
    ensures
        1 <= s.len() <= 5,
        s[0] == 'b' || s[0] == 'u' || s[0] == 'i',
        !is_space(s[0]),
        !is_space(s[s.len() - 1]),
        s[0] != 'T' && s[0] != 'O' && s[0] != 'V' && s[0] != '(',
{
    reveal_strlit("bool");
    reveal_strlit("usize");
    reveal_strlit("u8");
    reveal_strlit("u16");
    reveal_strlit("u32");
    reveal_strlit("u64");
    reveal_strlit("u128");
    reveal_strlit("isize");
    reveal_strlit("i8");
    reveal_strlit("i16");
    reveal_strlit("i32");
    reveal_strlit("i64");
    reveal_strlit("i128");
}

/// A well-formed value renders to a nonempty string whose first character
/// identifies the grammar rule, with no whitespace at either end.
proof fn lemma_render_shape(t: TypeModel)
    requires
        wf_type(t),
    ensures
        render_spec(t).len() > 0,
        !is_space(render_spec(t)[0]),
        !is_space(render_spec(t)[render_spec(t).len() - 1]),
        t matches TypeModel::Primitive(_) ==> (render_spec(t)[0] == 'b' || render_spec(t)[0] == 'u'
            || render_spec(t)[0] == 'i'),
        t matches TypeModel::Complex(_) ==> render_spec(t)[0] == 'T',
        t matches TypeModel::Option(_) ==> render_spec(t)[0] == 'O' && render_spec(t).len() >= 8
            && render_spec(t)[render_spec(t).len() - 1] == '>',
        t matches TypeModel::Vec(_) ==> render_spec(t)[0] == 'V' && render_spec(t).len() >= 5
            && render_spec(t)[render_spec(t).len() - 1] == '>',
        t matches TypeModel::Tuple(_) ==> render_spec(t)[0] == '(' && render_spec(t).len() >= 2
            && render_spec(t)[render_spec(t).len() - 1] == ')',
{
    lemma_lits();
    match t {
        TypeModel::Primitive(n) => {
            lemma_primitive_shape(n);
        },
        TypeModel::Complex(n) => {
            let r = "T::"@ + n;
            assert(r[r.len() - 1] == n[n.len() - 1]);
        },
        TypeModel::Option(b) => {
            let r = "Option<"@ + render_spec(*b) + ">"@;
            assert(r[r.len() - 1] == ">"@[0]);
        },
        TypeModel::Vec(b) => {
            let r = "Vec<"@ + render_spec(*b) + ">"@;
            assert(r[r.len() - 1] == ">"@[0]);
        },
        TypeModel::Tuple(ts) => {
            let r = "("@ + render_list_spec(ts) + ")"@;
            assert(r[0] == "("@[0]);
            assert(r[r.len() - 1] == ")"@[0]);
        },
    }
}

impl RuntimeType {
    /// The canonical string form of this type expression.
    pub fn render(&self) -> (r: String)
        ensures
            r@ == render_spec(self@),
        decreases *self, 0int,
    {
        match self {
            RuntimeType::Primitive(n) => n.clone(),
            RuntimeType::Complex(n) => {
                let mut out = "T::".to_owned();
                out.append(n.as_str());
                out
            },
            RuntimeType::Option(b) => {
                let mut out = "Option<".to_owned();
                let inner = (**b).render();
                out.append(inner.as_str());
                out.append(">");
                out
            },
            RuntimeType::Vec(b) => {
                let mut out = "Vec<".to_owned();
                let inner = (**b).render();
                out.append(inner.as_str());
                out.append(">");
                out
            },
            RuntimeType::Tuple(ts) => {
                proof {
                    assert(ts@.subrange(0, ts@.len() as int) =~= ts@);
                    assert(decreases_to!(*self => ts@));
                }
                let mut out = "(".to_owned();
                let body = Self::render_elems(ts, 0);
                out.append(body.as_str());
                out.append(")");
                out
            },
        }
    }

    fn render_elems(ts: &Vec<RuntimeType>, i: usize) -> (r: String)
        requires
            i <= ts@.len(),
        ensures
            r@ == render_list_spec(rt_seq_view(ts@.subrange(i as int, ts@.len() as int))),
        decreases ts@.subrange(i as int, ts@.len() as int), 1int,
    {
        let n = ts.len();
        let ghost sub = ts@.subrange(i as int, ts@.len() as int);
        if i == n {
            proof {
                assert(sub =~= Seq::<RuntimeType>::empty());
            }
            String::new()
        } else if i + 1 == n {
            proof {
                assert(sub.len() == 1);
                assert(sub[0] == ts@[i as int]);
                assert(sub.drop_first() =~= Seq::<RuntimeType>::empty());
                assert(rt_seq_view(Seq::<RuntimeType>::empty()) =~= Seq::<TypeModel>::empty());
                assert(rt_seq_view(sub) =~= seq![rt_view(sub[0])] + rt_seq_view(
                    sub.drop_first(),
                ));
                assert(rt_seq_view(sub) =~= seq![rt_view(ts@[i as int])]);
            }
            ts[i].render()
        } else {
            proof {
                assert(sub[0] == ts@[i as int]);
                assert(sub.drop_first() =~= ts@.subrange(i as int + 1, ts@.len() as int));
                assert(rt_seq_view(sub).len() >= 2) by {
                    lemma_rt_seq_view(sub);
                }
                lemma_rt_seq_view(sub);
                assert(rt_seq_view(sub)[0] == rt_view(ts@[i as int]));
                assert(rt_seq_view(sub).drop_first() =~= rt_seq_view(sub.drop_first()));
                assert(decreases_to!(sub => sub.drop_first()));
            }
            let mut out = ts[i].render();
            out.append(",");
            let rest = Self::render_elems(ts, i + 1);
            out.append(rest.as_str());
            proof {
                let vs = rt_seq_view(sub);
                assert(render_list_spec(vs) == render_spec(vs[0]) + ","@ + render_list_spec(
                    vs.drop_first(),
                ));
            }
            out
        }
    }

    /// Parse a type string. The grammar is total: every input yields a
    /// value, and the result is exactly `parse_spec` of the input.
    pub fn from_str(s: &str) -> (r: Result<RuntimeType, Error>)
        ensures
            r matches Ok(t) && t@ == parse_spec(s@),
        decreases s@.len(), 1int,
    {
        proof {
            lemma_trim_len(s@);
            lemma_strip_scope_len(trim_spec(s@));
            lemma_lits();
        }
        let t = trim_str(s);
        let u = strip_scope_str(t);
        let n = u.unicode_len();
        if is_primitive_str(u) {
            Ok(RuntimeType::Primitive(u.to_owned()))
        } else if str_starts_with(u, "Option<") && str_contains_char(u, '>') {
            let k = match str_find_last(u, '>') {
                Some(k) => k,
                None => {
                    proof {
                        lemma_find_last(u@, '>');
                        let w = choose|w: int| 0 <= w < u@.len() && u@[w] == '>';
                        assert(u@[w] != '>');
                    }
                    0
                },
            };
            proof {
                lemma_find_last(u@, '>');
                assert(u@[k as int] == '>');
                if (k as int) < 7 {
                    assert(u@.subrange(0, 7)[k as int] == u@[k as int]);
                    assert(u@[k as int] == "Option<"@[k as int]);
                }
            }
            let inner = u.substring_char(7, k);
            match Self::from_str(inner) {
                Ok(inner_t) => Ok(RuntimeType::Option(Box::new(inner_t))),
                Err(e) => Err(e),
            }
        } else if str_starts_with(u, "Vec<") && str_contains_char(u, '>') {
            let k = match str_find_last(u, '>') {
                Some(k) => k,
                None => {
                    proof {
                        lemma_find_last(u@, '>');
                        let w = choose|w: int| 0 <= w < u@.len() && u@[w] == '>';
                        assert(u@[w] != '>');
                    }
                    0
                },
            };
            proof {
                lemma_find_last(u@, '>');
                assert(u@[k as int] == '>');
                if (k as int) < 4 {
                    assert(u@.subrange(0, 4)[k as int] == u@[k as int]);
                    assert(u@[k as int] == "Vec<"@[k as int]);
                }
            }
            let inner = u.substring_char(4, k);
            match Self::from_str(inner) {
                Ok(inner_t) => Ok(RuntimeType::Vec(Box::new(inner_t))),
                Err(e) => Err(e),
            }
        } else if str_starts_with(u, "(") && str_contains_char(u, ')') {
            let k = match str_find_last(u, ')') {
                Some(k) => k,
                None => {
                    proof {
                        lemma_find_last(u@, ')');
                        let w = choose|w: int| 0 <= w < u@.len() && u@[w] == ')';
                        assert(u@[w] != ')');
                    }
                    0
                },
            };
            proof {
                lemma_find_last(u@, ')');
                assert(u@[k as int] == ')');
                if (k as int) < 1 {
                    assert(u@.subrange(0, 1)[k as int] == u@[k as int]);
                    assert(u@[k as int] == "("@[k as int]);
                }
            }
            let interior = u.substring_char(1, k);
            if interior.unicode_len() == 0 {
                proof {
                    assert(rt_seq_view(Seq::<RuntimeType>::empty()) =~= Seq::<
                        TypeModel,
                    >::empty());
                }
                Ok(RuntimeType::Tuple(Vec::new()))
            } else {
                match Self::parse_list_exec(interior) {
                    Ok(v) => Ok(RuntimeType::Tuple(v)),
                    Err(e) => Err(e),
                }
            }
        } else {
            let lt = str_find_first(u, '<');
            let gt = str_find_last(u, '>');
            let base: String = match (lt, gt) {
                (Some(i), Some(k)) => {
                    proof {
                        lemma_find_first(u@, '<');
                        lemma_find_last(u@, '>');
                    }
                    let mut b = u.substring_char(0, i).to_owned();
                    b.append(u.substring_char(k + 1, n));
                    b
                },
                _ => u.to_owned(),
            };
            let stripped = strip_colons_str(base.as_str());
            Ok(RuntimeType::Complex(stripped.to_owned()))
        }
    }

    fn parse_list_exec(s: &str) -> (r: Result<Vec<RuntimeType>, Error>)
        ensures
            r matches Ok(v) && rt_seq_view(v@) == parse_list(s@),
        decreases s@.len(), 2int,
    {
        let n = s.unicode_len();
        match str_find_first(s, ',') {
            None => {
                match Self::from_str(s) {
                    Ok(t) => {
                        let mut v: Vec<RuntimeType> = Vec::new();
                        v.push(t);
                        proof {
                            assert(v@.drop_first() =~= Seq::<RuntimeType>::empty());
                            assert(rt_seq_view(Seq::<RuntimeType>::empty()) =~= Seq::<
                                TypeModel,
                            >::empty());
                            assert(rt_seq_view(v@) =~= seq![rt_view(v@[0])] + rt_seq_view(
                                v@.drop_first(),
                            ));
                            assert(rt_seq_view(v@) =~= seq![rt_view(t)]);
                        }
                        Ok(v)
                    },
                    Err(e) => Err(e),
                }
            },
            Some(i) => {
                proof {
                    lemma_find_first(s@, ',');
                }
                let head = s.substring_char(0, i);
                let tail = s.substring_char(i + 1, n);
                match Self::from_str(head) {
                    Ok(t) => {
                        match Self::parse_list_exec(tail) {
                            Ok(mut rest) => {
                                let ghost rest0 = rest@;
                                let mut v: Vec<RuntimeType> = Vec::new();
                                v.push(t);
                                v.append(&mut rest);
                                proof {
                                    assert(v@[0] == t);
                                    assert(v@.drop_first() =~= rest0);
                                    assert(rt_seq_view(v@) == seq![rt_view(v@[0])] + rt_seq_view(
                                        v@.drop_first(),
                                    ));
                                    assert(parse_list(s@) == seq![
                                        parse_spec(s@.subrange(0, i as int)),
                                    ] + parse_list(s@.subrange(i as int + 1, s@.len() as int)));
                                }
                                Ok(v)
                            },
                            Err(e) => Err(e),
                        }
                    },
                    Err(e) => Err(e),
                }
            },
        }
    }

    /// The named types this expression references, transitively, in order.
    pub fn flatten_complex(&self) -> (r: Vec<String>)
        ensures
            r.deep_view() == flatten_spec(self@),
        decreases *self, 0int,
    {
        match self {
            RuntimeType::Primitive(_) => {
                let v: Vec<String> = Vec::new();
                proof {
                    assert(v.deep_view() =~= Seq::<Seq<char>>::empty());
                }
                v
            },
            RuntimeType::Complex(n) => {
                let mut v: Vec<String> = Vec::new();
                v.push(n.clone());
                proof {
                    assert(v.deep_view() =~= seq![n@]);
                }
                v
            },
            RuntimeType::Option(b) => (**b).flatten_complex(),
            RuntimeType::Vec(b) => (**b).flatten_complex(),
            RuntimeType::Tuple(ts) => {
                proof {
                    assert(ts@.subrange(0, ts@.len() as int) =~= ts@);
                    assert(decreases_to!(*self => ts@));
                }
                Self::flatten_elems(ts, 0)
            },
        }
    }

    fn flatten_elems(ts: &Vec<RuntimeType>, i: usize) -> (r: Vec<String>)
        requires
            i <= ts@.len(),
        ensures
            r.deep_view() == flatten_list(rt_seq_view(ts@.subrange(i as int, ts@.len() as int))),
        decreases ts@.subrange(i as int, ts@.len() as int), 1int,
    {
        let n = ts.len();
        let ghost sub = ts@.subrange(i as int, ts@.len() as int);
        if i == n {
            let v: Vec<String> = Vec::new();
            proof {
                assert(sub =~= Seq::<RuntimeType>::empty());
                assert(v.deep_view() =~= Seq::<Seq<char>>::empty());
            }
            v
        } else {
            proof {
                assert(sub[0] == ts@[i as int]);
                assert(sub.drop_first() =~= ts@.subrange(i as int + 1, ts@.len() as int));
                lemma_rt_seq_view(sub);
                assert(rt_seq_view(sub)[0] == rt_view(ts@[i as int]));
                assert(rt_seq_view(sub).drop_first() =~= rt_seq_view(sub.drop_first()));
                assert(decreases_to!(sub => sub.drop_first()));
            }
            let mut v = ts[i].flatten_complex();
            let ghost head_view = v.deep_view();
            let mut rest = Self::flatten_elems(ts, i + 1);
            let ghost rest_view = rest.deep_view();
            v.append(&mut rest);
            proof {
                assert(v.deep_view() =~= head_view + rest_view);
                let vs = rt_seq_view(sub);
                assert(vs.len() > 0);
                assert(flatten_list(vs) == flatten_spec(vs[0]) + flatten_list(vs.drop_first()));
            }
            v
        }
    }
}

/// Round-trip law: a value the grammar can construct parses back from its
/// own rendering. Well-formedness excludes exactly the documented
/// limitation: a tuple element whose rendering itself contains a comma.
pub proof fn lemma_parse_render_roundtrip(t: TypeModel)
    requires
        wf_type(t),
    ensures
        parse_spec(render_spec(t)) == t,
    decreases t,
{
    lemma_lits();
    lemma_render_shape(t);
    let r = render_spec(t);
    assert(trim_spec(r) == r) by {
        crate::text::lemma_trim_id(r);
    }
    match t {
        TypeModel::Primitive(n) => {
            lemma_primitive_shape(n);
            assert(strip_scope(r) == r);
        },
        TypeModel::Complex(n) => {
            // `T::` strips to the bare identifier, which matches no other rule.
            assert(r.subrange(0, 3) =~= "T::"@);
            assert(r[0] == 'T' && r[1] == ':' && r[2] == ':');
            assert(r.subrange(3, r.len() as int) =~= n);
            assert(strip_scope(r) == strip_scope(n));
            if n.len() >= 3 && n[0] == 'T' && n[1] == ':' && n[2] == ':' {
                assert(!ident_char_ok(n[1]));
            }
            assert(strip_scope(n) == n);
            assert(!n.contains('>')) by {
                if n.contains('>') {
                    let w = choose|w: int| 0 <= w < n.len() && n[w] == '>';
                    assert(!ident_char_ok(n[w]));
                }
            }
            assert(!n.contains(')')) by {
                if n.contains(')') {
                    let w = choose|w: int| 0 <= w < n.len() && n[w] == ')';
                    assert(!ident_char_ok(n[w]));
                }
            }
            assert(find_first(n, '<') is None) by {
                assert forall|j: int| 0 <= j < n.len() implies n[j] != '<' by {
                    assert(ident_char_ok(n[j]));
                }
                lemma_find_first_none(n, '<');
            }
            assert(outer_span_removed(n) == n);
            assert(n[0] != ':');
            assert(strip_colons(n) == n);
            assert(parse_core(n) == TypeModel::Complex(n));
        },
        TypeModel::Option(b) => {
            assert(strip_scope(r) == r);
            let ri = render_spec(*b);
            assert(!is_primitive_name(r)) by {
                if is_primitive_name(r) {
                    lemma_primitive_shape(r);
                }
            }
            assert(r.subrange(0, 7) =~= "Option<"@);
            assert(is_prefix("Option<"@, r));
            assert(r[r.len() - 1] == '>');
            assert(r.contains('>'));
            assert(find_last(r, '>') == Some(r.len() - 1));
            assert(r.len() - 1 >= 7);
            assert(r.subrange(7, r.len() - 1) =~= ri);
            lemma_parse_render_roundtrip(*b);
            assert(parse_core(r) == TypeModel::Option(Box::new(parse_spec(ri))));
        },
        TypeModel::Vec(b) => {
            assert(strip_scope(r) == r);
            let ri = render_spec(*b);
            assert(!is_primitive_name(r)) by {
                if is_primitive_name(r) {
                    lemma_primitive_shape(r);
                }
            }
            assert(!is_prefix("Option<"@, r)) by {
                if is_prefix("Option<"@, r) {
                    assert(r.subrange(0, 7)[0] == r[0]);
                }
            }
            assert(r.subrange(0, 4) =~= "Vec<"@);
            assert(is_prefix("Vec<"@, r));
            assert(r[r.len() - 1] == '>');
            assert(r.contains('>'));
            assert(find_last(r, '>') == Some(r.len() - 1));
            assert(r.len() - 1 >= 4);
            assert(r.subrange(4, r.len() - 1) =~= ri);
            lemma_parse_render_roundtrip(*b);
            assert(parse_core(r) == TypeModel::Vec(Box::new(parse_spec(ri))));
        },
        TypeModel::Tuple(ts) => {
            assert(strip_scope(r) == r);
            let body = render_list_spec(ts);
            assert(!is_primitive_name(r)) by {
                if is_primitive_name(r) {
                    lemma_primitive_shape(r);
                }
            }
            assert(!is_prefix("Option<"@, r)) by {
                if is_prefix("Option<"@, r) {
                    assert(r.subrange(0, 7)[0] == r[0]);
                }
            }
            assert(!is_prefix("Vec<"@, r)) by {
                if is_prefix("Vec<"@, r) {
                    assert(r.subrange(0, 4)[0] == r[0]);
                }
            }
            assert(r.subrange(0, 1) =~= "("@);
            assert(is_prefix("("@, r));
            assert(r[r.len() - 1] == ')');
            assert(r.contains(')'));
            assert(find_last(r, ')') == Some(r.len() - 1));
            assert(r.len() - 1 >= 1);
            assert(r.subrange(1, r.len() - 1) =~= body);
            if ts.len() == 0 {
                assert(body.len() == 0);
                assert(parse_core(r) == TypeModel::Tuple(Seq::<TypeModel>::empty()));
                assert(Seq::<TypeModel>::empty() =~= ts);
            } else {
                assert(wf_list(ts));
                assert(wf_type(ts[0]) && !render_spec(ts[0]).contains(','));
                lemma_render_shape(ts[0]);
                if ts.len() == 1 {
                    assert(body == render_spec(ts[0]));
                } else {
                    assert(body == render_spec(ts[0]) + ","@ + render_list_spec(ts.drop_first()));
                    assert(body.len() >= render_spec(ts[0]).len());
                }
                assert(body.len() > 0);
                lemma_roundtrip_list(ts);
                assert(parse_core(r) == TypeModel::Tuple(parse_list(body)));
            }
        },
    }
}

proof fn lemma_roundtrip_list(ts: Seq<TypeModel>)
    requires
        ts.len() >= 1,
        wf_list(ts),
    ensures
        parse_list(render_list_spec(ts)) == ts,
    decreases ts,
{
    lemma_lits();
    let r0 = render_spec(ts[0]);
    assert(forall|j: int| 0 <= j < r0.len() ==> r0[j] != ',') by {
        assert forall|j: int| 0 <= j < r0.len() implies r0[j] != ',' by {
            if r0[j] == ',' {
                assert(r0.contains(','));
            }
        }
    }
    if ts.len() == 1 {
        lemma_find_first_none(r0, ',');
        lemma_parse_render_roundtrip(ts[0]);
        assert(seq![parse_spec(r0)] =~= ts);
    } else {
        let body = render_list_spec(ts);
        let rest = render_list_spec(ts.drop_first());
        assert(body == r0 + ","@ + rest);
        assert(body[r0.len() as int] == ","@[0]);
        assert forall|j: int| 0 <= j < r0.len() implies body[j] != ',' by {
            assert(body[j] == r0[j]);
        }
        lemma_find_first_is(body, ',', r0.len() as int);
        assert(body.subrange(0, r0.len() as int) =~= r0);
        assert(body.subrange(r0.len() as int + 1, body.len() as int) =~= rest);
        lemma_parse_render_roundtrip(ts[0]);
        lemma_roundtrip_list(ts.drop_first());
        assert(parse_list(body) == seq![parse_spec(r0)] + parse_list(rest));
        assert(seq![ts[0]] + ts.drop_first() =~= ts);
    }
}

} // verus!
