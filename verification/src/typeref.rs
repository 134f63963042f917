//! Resolution of registry type ids into semantic type references, and
//! rendering of those references as source text.
//!
//! A [`TypeRef`] is the semantic shape of one type reference: the primitive
//! kind, tuple arity, array length, element references and custom-type names
//! are all explicit.  Resolution walks the registry recursively with a fuel
//! bound, so a registry whose references do not bottom out is rejected
//! instead of looping.

use vstd::prelude::*;

use crate::errors::GenError;
use crate::strutil::dec_str;
use crate::metadata::Primitive;
use crate::metadata::Type;
use crate::metadata::TypeDef;
use crate::metadata::TypeExtensions;
use crate::metadata::TypeRegistry;

verus! {

/// A fully resolved reference to a type, as it appears in a signature or a
/// field of the generated module.
#[derive(Debug, PartialEq)]
pub enum TypeRef {
    /// A primitive, rendered as a fixed keyword.
    Prim(Primitive),
    /// A tuple of element references.
    Tuple(Vec<TypeRef>),
    /// A fixed-length array: element reference and length.
    Array(Box<TypeRef>, u32),
    /// A dynamically sized list of elements.
    Sequence(Box<TypeRef>),
    /// The variable-length integer encoding around an inner type.
    Compact(Box<TypeRef>),
    /// A composite or variant referenced by name, with its rendered generic
    /// parameters; `custom` marks a contract-defined type that a scoped
    /// module must qualify.
    Named { name: String, custom: bool, params: Vec<TypeRef> },
}

/// True when the type with this id, and every type it references, can be
/// resolved within `fuel` nesting steps.
pub open spec fn resolvable(reg: TypeRegistry, id: u32, fuel: nat) -> bool
    decreases fuel, 0int,
{
    &&& fuel > 0
    &&& reg.contains_id(id)
    &&& match reg.spec_get(id).def {
        TypeDef::Primitive(_) => true,
        TypeDef::Tuple(ids) => list_resolvable(reg, ids@, (fuel - 1) as nat),
        TypeDef::Array(elem, _) => resolvable(reg, elem, (fuel - 1) as nat),
        TypeDef::Sequence(elem) => resolvable(reg, elem, (fuel - 1) as nat),
        TypeDef::Compact(elem) => resolvable(reg, elem, (fuel - 1) as nat),
        TypeDef::Composite(_) => list_resolvable(reg, reg.spec_get(id).params@, (fuel - 1) as nat),
        TypeDef::Variant(_) => list_resolvable(reg, reg.spec_get(id).params@, (fuel - 1) as nat),
        TypeDef::BitSequence => false,
    }
}

/// True when every id in the list is resolvable within `fuel` steps.
pub open spec fn list_resolvable(reg: TypeRegistry, ids: Seq<u32>, fuel: nat) -> bool
    decreases fuel, ids.len(),
{
    if ids.len() == 0 {
        true
    } else {
        resolvable(reg, ids[0], fuel) && list_resolvable(reg, ids.skip(1), fuel)
    }
}

/// The error reported for an unresolvable id: the first failure found in a
/// left-to-right, outside-in walk.
pub open spec fn resolve_err(reg: TypeRegistry, id: u32, fuel: nat) -> GenError
    recommends
        !resolvable(reg, id, fuel),
    decreases fuel, 0int,
{
    if fuel == 0 {
        GenError::UnsupportedType(id)
    } else if !reg.contains_id(id) {
        GenError::UnresolvedTypeId(id)
    } else {
        match reg.spec_get(id).def {
            TypeDef::Primitive(_) => GenError::UnsupportedType(id),
            TypeDef::Tuple(ids) => list_resolve_err(reg, ids@, (fuel - 1) as nat),
            TypeDef::Array(elem, _) => resolve_err(reg, elem, (fuel - 1) as nat),
            TypeDef::Sequence(elem) => resolve_err(reg, elem, (fuel - 1) as nat),
            TypeDef::Compact(elem) => resolve_err(reg, elem, (fuel - 1) as nat),
            TypeDef::Composite(_) => list_resolve_err(
                reg,
                reg.spec_get(id).params@,
                (fuel - 1) as nat,
            ),
            TypeDef::Variant(_) => list_resolve_err(reg, reg.spec_get(id).params@, (fuel - 1) as nat),
            TypeDef::BitSequence => GenError::UnsupportedType(id),
        }
    }
}

/// The error for the first unresolvable id in the list.
pub open spec fn list_resolve_err(reg: TypeRegistry, ids: Seq<u32>, fuel: nat) -> GenError
    recommends
        !list_resolvable(reg, ids, fuel),
    decreases fuel, ids.len(),
{
    if ids.len() == 0 {
        GenError::MixedFields
    } else if !resolvable(reg, ids[0], fuel) {
        resolve_err(reg, ids[0], fuel)
    } else {
        list_resolve_err(reg, ids.skip(1), fuel)
    }
}

/// The reference `t` has exactly the semantic shape of the registry entry
/// `id`: same primitive kind, same arity, elements and fields in the same
/// order, the declared array length, and the entry's qualified name.
pub open spec fn ref_matches(reg: TypeRegistry, id: u32, t: TypeRef) -> bool
    decreases t,
{
    &&& reg.contains_id(id)
    &&& match reg.spec_get(id).def {
        TypeDef::Primitive(p) => t matches TypeRef::Prim(q) && q == p,
        TypeDef::Tuple(ids) => t matches TypeRef::Tuple(elems) && list_ref_matches(
            reg,
            ids@,
            elems@,
        ),
        TypeDef::Array(elem, len) => t matches TypeRef::Array(b, n) && n == len && ref_matches(
            reg,
            elem,
            *b,
        ),
        TypeDef::Sequence(elem) => t matches TypeRef::Sequence(b) && ref_matches(reg, elem, *b),
        TypeDef::Compact(elem) => t matches TypeRef::Compact(b) && ref_matches(reg, elem, *b),
        TypeDef::Composite(_) => t matches TypeRef::Named { name, custom, params } && name@
            == reg.spec_get(id).spec_qualified_name() && custom == reg.spec_get(id).spec_is_custom()
            && list_ref_matches(reg, reg.spec_get(id).params@, params@),
        TypeDef::Variant(_) => t matches TypeRef::Named { name, custom, params } && name@
            == reg.spec_get(id).spec_qualified_name() && custom == reg.spec_get(id).spec_is_custom()
            && list_ref_matches(reg, reg.spec_get(id).params@, params@),
        TypeDef::BitSequence => false,
    }
}

/// Elementwise shape correspondence of a list of ids and references.
pub open spec fn list_ref_matches(reg: TypeRegistry, ids: Seq<u32>, ts: Seq<TypeRef>) -> bool
    decreases ts,
{
    &&& ids.len() == ts.len()
    &&& (ts.len() > 0 ==> ref_matches(reg, ids[0], ts[0]) && list_ref_matches(
        reg,
        ids.skip(1),
        ts.skip(1),
    ))
}

proof fn lemma_list_prefix_resolvable(reg: TypeRegistry, ids: Seq<u32>, fuel: nat)
    requires
        forall|j: int| 0 <= j < ids.len() ==> resolvable(reg, ids[j], fuel),
    ensures
        list_resolvable(reg, ids, fuel),
    decreases ids.len(),
{
    if ids.len() > 0 {
        lemma_list_prefix_resolvable(reg, ids.skip(1), fuel);
    }
}

proof fn lemma_list_err_at(reg: TypeRegistry, ids: Seq<u32>, fuel: nat, i: int)
    requires
        0 <= i < ids.len(),
        forall|j: int| 0 <= j < i ==> resolvable(reg, ids[j], fuel),
        !resolvable(reg, ids[i], fuel),
    ensures
        !list_resolvable(reg, ids, fuel),
        list_resolve_err(reg, ids, fuel) == resolve_err(reg, ids[i], fuel),
    decreases i,
{
    if i > 0 {
        lemma_list_err_at(reg, ids.skip(1), fuel, i - 1);
    }
}

/// Growing a matched list by one matched element.
proof fn lemma_list_ref_matches_push(
    reg: TypeRegistry,
    ids: Seq<u32>,
    ts: Seq<TypeRef>,
    id: u32,
    t: TypeRef,
)
    requires
        list_ref_matches(reg, ids, ts),
        ref_matches(reg, id, t),
    ensures
        list_ref_matches(reg, ids.push(id), ts.push(t)),
    decreases ts.len(),
{
    assert(ids.len() == ts.len());
    if ts.len() == 0 {
        assert(ids.push(id) =~= seq![id]);
        assert(ts.push(t) =~= seq![t]);
        assert(seq![id].skip(1) =~= Seq::<u32>::empty());
        assert(seq![t].skip(1) =~= Seq::<TypeRef>::empty());
        assert(list_ref_matches(reg, seq![id].skip(1), seq![t].skip(1)));
        assert(ref_matches(reg, ids.push(id)[0], ts.push(t)[0]));
    } else {
        assert(ids.push(id)[0] == ids[0]);
        assert(ts.push(t)[0] == ts[0]);
        assert(ref_matches(reg, ids[0], ts[0]));
        assert(ids.push(id).skip(1) =~= ids.skip(1).push(id));
        assert(ts.push(t).skip(1) =~= ts.skip(1).push(t));
        lemma_list_ref_matches_push(reg, ids.skip(1), ts.skip(1), id, t);
        assert(list_ref_matches(reg, ids.push(id).skip(1), ts.push(t).skip(1)));
    }
}

/// Resolves each id in the list within the given fuel.
fn resolve_list(reg: &TypeRegistry, ids: &Vec<u32>, fuel: usize) -> (r: Result<
    Vec<TypeRef>,
    GenError,
>)
    ensures
        match r {
            Ok(ts) => list_resolvable(*reg, ids@, fuel as nat) && list_ref_matches(
                *reg,
                ids@,
                ts@,
            ),
            Err(e) => !list_resolvable(*reg, ids@, fuel as nat) && e == list_resolve_err(
                *reg,
                ids@,
                fuel as nat,
            ),
        },
    decreases fuel, ids@.len(), 1int,
{
    let mut out: Vec<TypeRef> = Vec::new();
    let mut i: usize = 0;
    while i < ids.len()
        invariant
            i <= ids.len(),
            out@.len() == i,
            forall|j: int| 0 <= j < i ==> resolvable(*reg, ids@[j], fuel as nat),
            list_ref_matches(*reg, ids@.take(i as int), out@),
        decreases ids@.len() - i,
    {
        match resolve_ref(reg, ids[i], fuel) {
            Ok(t) => {
                proof {
                    lemma_list_ref_matches_push(
                        *reg,
                        ids@.take(i as int),
                        out@,
                        ids@[i as int],
                        t,
                    );
                    assert(ids@.take(i + 1 as int) =~= ids@.take(i as int).push(ids@[i as int]));
                }
                out.push(t);
            },
            Err(e) => {
                proof {
                    lemma_list_err_at(*reg, ids@, fuel as nat, i as int);
                }
                return Err(e);
            },
        }
        i = i + 1;
    }
    proof {
        assert(ids@.take(ids@.len() as int) =~= ids@);
        lemma_list_prefix_resolvable(*reg, ids@, fuel as nat);
    }
    Ok(out)
}

/// Resolves the type with the given id into its semantic reference, walking
/// nested references with the given fuel.  Returns the shape-faithful
/// reference, or the first error of the walk.
pub fn resolve_ref(reg: &TypeRegistry, id: u32, fuel: usize) -> (r: Result<TypeRef, GenError>)
    ensures
        match r {
            Ok(t) => resolvable(*reg, id, fuel as nat) && ref_matches(*reg, id, t),
            Err(e) => !resolvable(*reg, id, fuel as nat) && e == resolve_err(
                *reg,
                id,
                fuel as nat,
            ),
        },
    decreases fuel, 0int, 0int,
{
    if fuel == 0 {
        return Err(GenError::UnsupportedType(id));
    }
    let typ: &Type = match reg.lookup(id) {
        Some(t) => t,
        None => {
            return Err(GenError::UnresolvedTypeId(id));
        },
    };
    match &typ.def {
        TypeDef::Primitive(p) => Ok(TypeRef::Prim(*p)),
        TypeDef::Tuple(ids) => {
            match resolve_list(reg, ids, fuel - 1) {
                Ok(elems) => Ok(TypeRef::Tuple(elems)),
                Err(e) => Err(e),
            }
        },
        TypeDef::Array(elem, len) => {
            match resolve_ref(reg, *elem, fuel - 1) {
                Ok(t) => Ok(TypeRef::Array(Box::new(t), *len)),
                Err(e) => Err(e),
            }
        },
        TypeDef::Sequence(elem) => {
            match resolve_ref(reg, *elem, fuel - 1) {
                Ok(t) => Ok(TypeRef::Sequence(Box::new(t))),
                Err(e) => Err(e),
            }
        },
        TypeDef::Compact(elem) => {
            match resolve_ref(reg, *elem, fuel - 1) {
                Ok(t) => Ok(TypeRef::Compact(Box::new(t))),
                Err(e) => Err(e),
            }
        },
        TypeDef::Composite(_) => {
            match resolve_list(reg, &typ.params, fuel - 1) {
                Ok(params) => Ok(
                    TypeRef::Named { name: typ.qualified_name(), custom: typ.is_custom(), params },
                ),
                Err(e) => Err(e),
            }
        },
        TypeDef::Variant(_) => {
            match resolve_list(reg, &typ.params, fuel - 1) {
                Ok(params) => Ok(
                    TypeRef::Named { name: typ.qualified_name(), custom: typ.is_custom(), params },
                ),
                Err(e) => Err(e),
            }
        },
        TypeDef::BitSequence => Err(GenError::UnsupportedType(id)),
    }
}

/// The fixed keyword a primitive renders to.
pub open spec fn prim_keyword(p: Primitive) -> Seq<char> {
    match p {
        Primitive::U8 => "u8"@,
        Primitive::I8 => "i8"@,
        Primitive::U16 => "u16"@,
        Primitive::I16 => "i16"@,
        Primitive::U32 => "u32"@,
        Primitive::I32 => "i32"@,
        Primitive::U64 => "u64"@,
        Primitive::I64 => "i64"@,
        Primitive::U128 => "u128"@,
        Primitive::I128 => "i128"@,
        Primitive::U256 => "u256"@,
        Primitive::I256 => "i256"@,
        Primitive::Bool => "bool"@,
        Primitive::Char => "char"@,
        Primitive::Str => "String"@,
    }
}

/// The source text of a type reference.  A custom type is qualified with
/// `prefix::` when `prefix` is non-empty, so that a scoped submodule can
/// name types declared next to it.
pub open spec fn spec_render(t: TypeRef, prefix: Seq<char>) -> Seq<char>
    decreases t,
{
    match t {
        TypeRef::Prim(p) => prim_keyword(p),
        TypeRef::Tuple(ts) => "("@ + spec_render_list(ts@, prefix) + ")"@,
        TypeRef::Array(b, n) => "["@ + spec_render(*b, prefix) + "; "@ + dec_str(n as int) + "]"@,
        TypeRef::Sequence(b) => "Vec<"@ + spec_render(*b, prefix) + ">"@,
        TypeRef::Compact(b) => "scale::Compact<"@ + spec_render(*b, prefix) + ">"@,
        TypeRef::Named { name, custom, params } => {
            let qualifier = if custom && prefix.len() > 0 {
                prefix + "::"@
            } else {
                Seq::<char>::empty()
            };
            let generics = if params@.len() == 0 {
                Seq::<char>::empty()
            } else {
                "<"@ + spec_render_list(params@, prefix) + ">"@
            };
            qualifier + name@ + generics
        },
    }
}

/// Comma-joined rendering of a list of references.
pub open spec fn spec_render_list(ts: Seq<TypeRef>, prefix: Seq<char>) -> Seq<char>
    decreases ts,
{
    if ts.len() == 0 {
        Seq::empty()
    } else if ts.len() == 1 {
        spec_render(ts[0], prefix)
    } else {
        spec_render(ts[0], prefix) + ", "@ + spec_render_list(ts.skip(1), prefix)
    }
}

fn prim_keyword_str(p: &Primitive) -> (r: &'static str)
    ensures
        r@ == prim_keyword(*p),
{
    match p {
        Primitive::U8 => "u8",
        Primitive::I8 => "i8",
        Primitive::U16 => "u16",
        Primitive::I16 => "i16",
        Primitive::U32 => "u32",
        Primitive::I32 => "i32",
        Primitive::U64 => "u64",
        Primitive::I64 => "i64",
        Primitive::U128 => "u128",
        Primitive::I128 => "i128",
        Primitive::U256 => "u256",
        Primitive::I256 => "i256",
        Primitive::Bool => "bool",
        Primitive::Char => "char",
        Primitive::Str => "String",
    }
}

proof fn lemma_render_list_push(ts: Seq<TypeRef>, prefix: Seq<char>, t: TypeRef)
    ensures
        spec_render_list(ts.push(t), prefix) == if ts.len() == 0 {
            spec_render(t, prefix)
        } else {
            (spec_render_list(ts, prefix) + ", "@ + spec_render(t, prefix))
        },
    decreases ts.len(),
{
    if ts.len() == 0 {
        assert(ts.push(t) =~= seq![t]);
    } else if ts.len() == 1 {
        assert(ts.push(t).skip(1) =~= seq![t]);
        assert(ts.push(t)[0] == ts[0]);
        assert(spec_render_list(seq![t], prefix) == spec_render(t, prefix));
    } else {
        assert(ts.push(t).skip(1) =~= ts.skip(1).push(t));
        lemma_render_list_push(ts.skip(1), prefix, t);
        assert(ts.push(t)[0] == ts[0]);
        assert(spec_render(ts[0], prefix) + ", "@ + (spec_render_list(ts.skip(1), prefix) + ", "@
            + spec_render(t, prefix)) =~= (spec_render(ts[0], prefix) + ", "@ + spec_render_list(
            ts.skip(1),
            prefix,
        )) + ", "@ + spec_render(t, prefix));
    }
}

/// Renders a list of references, comma-separated.
fn render_list(ts: &Vec<TypeRef>, prefix: &str) -> (r: String)
    ensures
        r@ == spec_render_list(ts@, prefix@),
    decreases ts@, 0int,
{
    let mut r = String::new();
    let mut i: usize = 0;
    while i < ts.len()
        invariant
            i <= ts.len(),
            r@ == spec_render_list(ts@.take(i as int), prefix@),
        decreases ts@.len() - i,
    {
        if i > 0 {
            r.append(", ");
        }
        let piece = render_ref(&ts[i], prefix);
        r.append(piece.as_str());
        proof {
            assert(ts@.take(i + 1 as int) =~= ts@.take(i as int).push(ts@[i as int]));
            lemma_render_list_push(ts@.take(i as int), prefix@, ts@[i as int]);
        }
        i = i + 1;
    }
    proof {
        assert(ts@.take(ts@.len() as int) =~= ts@);
    }
    r
}

/// Renders one type reference as source text; `prefix` qualifies custom
/// type names when non-empty.
pub fn render_ref(t: &TypeRef, prefix: &str) -> (r: String)
    ensures
        r@ == spec_render(*t, prefix@),
    decreases *t, 1int,
{
    match t {
        TypeRef::Prim(p) => String::from_str(prim_keyword_str(p)),
        TypeRef::Tuple(ts) => {
            let mut r = String::from_str("(");
            let inner = render_list(ts, prefix);
            r.append(inner.as_str());
            r.append(")");
            r
        },
        TypeRef::Array(b, n) => {
            let mut r = String::from_str("[");
            let inner = render_ref(b, prefix);
            r.append(inner.as_str());
            r.append("; ");
            let len = crate::strutil::u32_to_dec(*n);
            r.append(len.as_str());
            r.append("]");
            r
        },
        TypeRef::Sequence(b) => {
            let mut r = String::from_str("Vec<");
            let inner = render_ref(b, prefix);
            r.append(inner.as_str());
            r.append(">");
            r
        },
        TypeRef::Compact(b) => {
            let mut r = String::from_str("scale::Compact<");
            let inner = render_ref(b, prefix);
            r.append(inner.as_str());
            r.append(">");
            r
        },
        TypeRef::Named { name, custom, params } => {
            let mut r = String::new();
            if *custom && prefix.unicode_len() > 0 {
                r.append(prefix);
                r.append("::");
            }
            r.append(name.as_str());
            if params.len() > 0 {
                r.append("<");
                let inner = render_list(params, prefix);
                r.append(inner.as_str());
                r.append(">");
            }
            proof {
                assert(r@ =~= spec_render(*t, prefix@));
            }
            r
        },
    }
}

/// The source text of a reference to the type with the given id, walking
/// nested references with the given fuel.  Meaningful exactly when
/// `resolvable(reg, id, fuel)` holds.
pub open spec fn type_text(reg: TypeRegistry, id: u32, prefix: Seq<char>, fuel: nat) -> Seq<char>
    decreases fuel, 0int,
{
    if fuel == 0 || !reg.contains_id(id) {
        Seq::empty()
    } else {
        let t = reg.spec_get(id);
        match t.def {
            TypeDef::Primitive(p) => prim_keyword(p),
            TypeDef::Tuple(ids) => "("@ + type_text_list(reg, ids@, prefix, (fuel - 1) as nat)
                + ")"@,
            TypeDef::Array(elem, n) => "["@ + type_text(reg, elem, prefix, (fuel - 1) as nat)
                + "; "@ + dec_str(n as int) + "]"@,
            TypeDef::Sequence(elem) => "Vec<"@ + type_text(reg, elem, prefix, (fuel - 1) as nat)
                + ">"@,
            TypeDef::Compact(elem) => "scale::Compact<"@ + type_text(
                reg,
                elem,
                prefix,
                (fuel - 1) as nat,
            ) + ">"@,
            TypeDef::Composite(_) => {
                let qualifier = if t.spec_is_custom() && prefix.len() > 0 {
                    prefix + "::"@
                } else {
                    Seq::<char>::empty()
                };
                let generics = if t.params@.len() == 0 {
                    Seq::<char>::empty()
                } else {
                    "<"@ + type_text_list(reg, t.params@, prefix, (fuel - 1) as nat) + ">"@
                };
                qualifier + t.spec_qualified_name() + generics
            },
            TypeDef::Variant(_) => {
                let qualifier = if t.spec_is_custom() && prefix.len() > 0 {
                    prefix + "::"@
                } else {
                    Seq::<char>::empty()
                };
                let generics = if t.params@.len() == 0 {
                    Seq::<char>::empty()
                } else {
                    "<"@ + type_text_list(reg, t.params@, prefix, (fuel - 1) as nat) + ">"@
                };
                qualifier + t.spec_qualified_name() + generics
            },
            TypeDef::BitSequence => Seq::empty(),
        }
    }
}

/// Comma-joined reference texts for a list of ids.
pub open spec fn type_text_list(reg: TypeRegistry, ids: Seq<u32>, prefix: Seq<char>, fuel: nat) -> Seq<
    char,
>
    decreases fuel, ids.len(),
{
    if ids.len() == 0 {
        Seq::empty()
    } else if ids.len() == 1 {
        type_text(reg, ids[0], prefix, fuel)
    } else {
        type_text(reg, ids[0], prefix, fuel) + ", "@ + type_text_list(
            reg,
            ids.skip(1),
            prefix,
            fuel,
        )
    }
}

/// A shape-faithful reference renders to exactly the text of its id: the
/// rendering of a resolved reference is determined by the registry alone.
proof fn lemma_matched_render(reg: TypeRegistry, id: u32, t: TypeRef, prefix: Seq<char>, fuel: nat)
    requires
        ref_matches(reg, id, t),
        resolvable(reg, id, fuel),
    ensures
        spec_render(t, prefix) == type_text(reg, id, prefix, fuel),
    decreases t, 1int,
{
    match reg.spec_get(id).def {
        TypeDef::Primitive(_) => {},
        TypeDef::Tuple(ids) => {
            let elems = t->Tuple_0;
            lemma_matched_render_list(reg, ids@, elems@, prefix, (fuel - 1) as nat);
        },
        TypeDef::Array(elem, _) => {
            lemma_matched_render(reg, elem, *t->Array_0, prefix, (fuel - 1) as nat);
        },
        TypeDef::Sequence(elem) => {
            lemma_matched_render(reg, elem, *t->Sequence_0, prefix, (fuel - 1) as nat);
        },
        TypeDef::Compact(elem) => {
            lemma_matched_render(reg, elem, *t->Compact_0, prefix, (fuel - 1) as nat);
        },
        TypeDef::Composite(_) => {
            lemma_matched_render_list(
                reg,
                reg.spec_get(id).params@,
                t->params@,
                prefix,
                (fuel - 1) as nat,
            );
            assert(t->params@.len() == reg.spec_get(id).params@.len());
        },
        TypeDef::Variant(_) => {
            assert(t is Named);
            assert(list_ref_matches(reg, reg.spec_get(id).params@, t->params@));
            lemma_matched_render_list(
                reg,
                reg.spec_get(id).params@,
                t->params@,
                prefix,
                (fuel - 1) as nat,
            );
            assert(t->params@.len() == reg.spec_get(id).params@.len());
        },
        TypeDef::BitSequence => {},
    }
}

proof fn lemma_matched_render_list(
    reg: TypeRegistry,
    ids: Seq<u32>,
    ts: Seq<TypeRef>,
    prefix: Seq<char>,
    fuel: nat,
)
    requires
        list_ref_matches(reg, ids, ts),
        list_resolvable(reg, ids, fuel),
    ensures
        spec_render_list(ts, prefix) == type_text_list(reg, ids, prefix, fuel),
    decreases ts, 0int,
{
    if ts.len() == 0 {
    } else if ts.len() == 1 {
        lemma_matched_render(reg, ids[0], ts[0], prefix, fuel);
    } else {
        lemma_matched_render(reg, ids[0], ts[0], prefix, fuel);
        lemma_matched_render_list(reg, ids.skip(1), ts.skip(1), prefix, fuel);
    }
}

/// Law: for every resolvable id, any reference with the id's semantic
/// shape renders to the one reference text of that id.  Together with the
/// resolver's guarantee that resolution produces a shape-faithful
/// reference, rendering a resolved reference is determined by the
/// registry alone: same registry, same id, same text.
pub proof fn lemma_render_round_trip(
    reg: TypeRegistry,
    id: u32,
    t: TypeRef,
    prefix: Seq<char>,
    fuel: nat,
)
    requires
        resolvable(reg, id, fuel),
        ref_matches(reg, id, t),
    ensures
        spec_render(t, prefix) == type_text(reg, id, prefix, fuel),
{
    lemma_matched_render(reg, id, t, prefix, fuel);
}

/// Resolves and renders a reference to the type with the given id, custom
/// names qualified with `prefix::` when `prefix` is non-empty.  The fuel
/// for nested references is the registry size, which suffices for every
/// registry whose references bottom out.
pub fn type_ref_prefix(reg: &TypeRegistry, id: u32, prefix: &str) -> (r: Result<String, GenError>)
    ensures
        match r {
            Ok(s) => resolvable(*reg, id, reg.types@.len() as nat) && s@ == type_text(
                *reg,
                id,
                prefix@,
                reg.types@.len() as nat,
            ),
            Err(e) => !resolvable(*reg, id, reg.types@.len() as nat) && e == resolve_err(
                *reg,
                id,
                reg.types@.len() as nat,
            ),
        },
{
    let fuel = reg.len();
    match resolve_ref(reg, id, fuel) {
        Ok(t) => {
            let s = render_ref(&t, prefix);
            proof {
                lemma_matched_render(*reg, id, t, prefix@, fuel as nat);
            }
            Ok(s)
        },
        Err(e) => Err(e),
    }
}

/// Resolves and renders an unqualified reference to the type with the
/// given id.
pub fn type_ref(reg: &TypeRegistry, id: u32) -> (r: Result<String, GenError>)
    ensures
        match r {
            Ok(s) => resolvable(*reg, id, reg.types@.len() as nat) && s@ == type_text(
                *reg,
                id,
                ""@,
                reg.types@.len() as nat,
            ),
            Err(e) => !resolvable(*reg, id, reg.types@.len() as nat) && e == resolve_err(
                *reg,
                id,
                reg.types@.len() as nat,
            ),
        },
{
    type_ref_prefix(reg, id, "")
}

} // verus!
