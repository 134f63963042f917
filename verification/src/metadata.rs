//! The data model of the input metadata document.
//!
//! A contract interface is a flat type registry (a numeric id per type) plus
//! lists of constructors, messages and events.  Everything here is derived
//! once from the immutable input; nothing is mutated afterwards.

use vstd::prelude::*;

use crate::errors::GenError;
use crate::strutil::join_with;
use crate::strutil::join_strings;
use crate::strutil::string_matches;

verus! {

/// A primitive type of the wire format.
#[derive(Debug, Clone, Copy, PartialEq, Eq, Structural)]
pub enum Primitive {
    U8,
    I8,
    U16,
    I16,
    U32,
    I32,
    U64,
    I64,
    U128,
    I128,
    U256,
    I256,
    Bool,
    Char,
    Str,
}

/// One field of a composite or of a variant alternative.
#[derive(Debug, Clone)]
pub struct Field {
    /// The field name; `None` for a positional field.
    pub name: Option<String>,
    /// The id of the field's type in the registry.
    pub ty: u32,
}

/// One alternative of a variant (sum) type.
#[derive(Debug, Clone)]
pub struct Variant {
    pub name: String,
    pub fields: Vec<Field>,
}

/// The field list of a composite (record) type.
#[derive(Debug, Clone)]
pub struct TypeDefComposite {
    pub fields: Vec<Field>,
}

/// The structural definition of a registry type.
#[derive(Debug, Clone)]
pub enum TypeDef {
    Primitive(Primitive),
    /// Ordered element type ids.
    Tuple(Vec<u32>),
    /// Element type id and fixed length.
    Array(u32, u32),
    /// Element type id of a dynamically sized list.
    Sequence(u32),
    /// Element type id wrapped in the variable-length integer encoding.
    Compact(u32),
    Composite(TypeDefComposite),
    Variant(Vec<Variant>),
    /// An encoding the generator does not support.
    BitSequence,
}

impl TypeDef {
    /// True exactly when the definition is a primitive.
    pub fn is_primitive(&self) -> (r: bool)
        ensures
            r == (self is Primitive),
    {
        match self {
            TypeDef::Primitive(_) => true,
            _ => false,
        }
    }
}

/// One entry of the type registry: a namespace path, generic parameter type
/// ids, and the structural definition.
#[derive(Debug, Clone)]
pub struct Type {
    /// Namespace segments; empty or a single segment for builtin types.
    pub path: Vec<String>,
    /// Type ids of the generic parameters, in declaration order.
    pub params: Vec<u32>,
    pub def: TypeDef,
}

/// Classification of registry types: primitive, platform-reserved, builtin
/// or custom, and the name a reference to the type uses.
pub trait TypeExtensions {
    spec fn spec_is_primitive(&self) -> bool;

    spec fn spec_is_ink(&self) -> bool;

    spec fn spec_is_ink_types(&self) -> bool;

    spec fn spec_is_builtin(&self) -> bool;

    spec fn spec_is_lang_error(&self) -> bool;

    spec fn spec_is_custom(&self) -> bool;

    spec fn spec_qualified_name(&self) -> Seq<char>;

    /// True for a primitive of the wire format.
    fn is_primitive(&self) -> (r: bool)
        ensures
            r == self.spec_is_primitive(),
    ;

    /// True for a platform-reserved type: the first path segment is the
    /// framework namespace.
    fn is_ink(&self) -> (r: bool)
        ensures
            r == self.spec_is_ink(),
    ;

    /// True for a platform-reserved type that lives in the framework's
    /// private `types` module and is re-exported at its top level.
    fn is_ink_types(&self) -> (r: bool)
        ensures
            r == self.spec_is_ink_types(),
    ;

    /// True for a builtin: the path has exactly one segment.
    fn is_builtin(&self) -> (r: bool)
        ensures
            r == self.spec_is_builtin(),
    ;

    /// True for the platform's language-level call error type.
    fn is_lang_error(&self) -> (r: bool)
        ensures
            r == self.spec_is_lang_error(),
    ;

    /// True for a contract-defined type that needs a generated declaration.
    fn is_custom(&self) -> (r: bool)
        ensures
            r == self.spec_is_custom(),
    ;

    /// The name by which a reference can name the type.
    fn qualified_name(&self) -> (r: String)
        ensures
            r@ == self.spec_qualified_name(),
    ;
}

impl TypeExtensions for Type {
    open spec fn spec_is_primitive(&self) -> bool {
        self.def is Primitive
    }

    open spec fn spec_is_ink(&self) -> bool {
        self.path@.len() > 0 && self.path@[0]@ == "ink_primitives"@
    }

    open spec fn spec_is_ink_types(&self) -> bool {
        &&& self.path@.len() > 2
        &&& self.path@[0]@ == "ink_primitives"@
        &&& self.path@[1]@ == "types"@
    }

    open spec fn spec_is_builtin(&self) -> bool {
        self.path@.len() == 1
    }

    open spec fn spec_is_lang_error(&self) -> bool {
        self.spec_is_ink() && self.path@.last()@ == "LangError"@
    }

    open spec fn spec_is_custom(&self) -> bool {
        !self.spec_is_primitive() && !self.spec_is_ink() && !self.spec_is_builtin()
    }

    open spec fn spec_qualified_name(&self) -> Seq<char> {
        if self.spec_is_lang_error() {
            "ink_wrapper_types::InkLangError"@
        } else if self.spec_is_ink_types() {
            "ink_primitives::"@ + self.path@.last()@
        } else if self.spec_is_ink() {
            join_with(self.path@.map_values(|p: String| p@), "::"@)
        } else if self.path@.len() > 0 {
            self.path@.last()@
        } else {
            Seq::empty()
        }
    }

    fn is_primitive(&self) -> (r: bool) {
        self.def.is_primitive()
    }

    fn is_ink(&self) -> (r: bool) {
        self.path.len() > 0 && string_matches(&self.path[0], "ink_primitives")
    }

    fn is_ink_types(&self) -> (r: bool) {
        self.path.len() > 2 && string_matches(&self.path[0], "ink_primitives") && string_matches(
            &self.path[1],
            "types",
        )
    }

    fn is_builtin(&self) -> (r: bool) {
        self.path.len() == 1
    }

    fn is_lang_error(&self) -> (r: bool) {
        self.is_ink() && string_matches(&self.path[self.path.len() - 1], "LangError")
    }

    fn is_custom(&self) -> (r: bool) {
        !self.is_primitive() && !self.is_ink() && !self.is_builtin()
    }

    fn qualified_name(&self) -> (r: String) {
        if self.is_lang_error() {
            String::from_str("ink_wrapper_types::InkLangError")
        } else if self.is_ink_types() {
            let mut r = String::from_str("ink_primitives::");
            r.append(self.path[self.path.len() - 1].as_str());
            r
        } else if self.is_ink() {
            join_strings(&self.path, "::")
        } else if self.path.len() > 0 {
            let r = self.path[self.path.len() - 1].clone();
            r
        } else {
            String::new()
        }
    }
}

/// The flat registry: the id of a type is its position.
#[derive(Debug, Clone)]
pub struct TypeRegistry {
    pub types: Vec<Type>,
}

impl TypeRegistry {
    /// True when the registry has an entry for `id`.
    pub open spec fn contains_id(&self, id: u32) -> bool {
        id < self.types@.len()
    }

    pub open spec fn spec_get(&self, id: u32) -> Type {
        self.types@[id as int]
    }

    /// The number of registered types.
    pub fn len(&self) -> (r: usize)
        ensures
            r == self.types@.len(),
    {
        self.types.len()
    }

    /// The type with the given id, if the registry has one.
    pub fn lookup(&self, id: u32) -> (r: Option<&Type>)
        ensures
            match r {
                Some(t) => self.contains_id(id) && *t == self.spec_get(id),
                None => !self.contains_id(id),
            },
    {
        if (id as usize) < self.types.len() {
            Some(&self.types[id as usize])
        } else {
            None
        }
    }

    /// The type with the given id.  Every id mentioned by a well-formed
    /// metadata document resolves; an absent id is a fatal input error that
    /// callers report before reaching this point.
    pub fn resolve(&self, id: u32) -> (r: &Type)
        requires
            self.contains_id(id),
        ensures
            *r == self.spec_get(id),
    {
        &self.types[id as usize]
    }
}

/// One declared argument of an entry point.
#[derive(Debug, Clone)]
pub struct Arg {
    pub label: String,
    /// Type id of the argument.
    pub ty: u32,
}

/// A contract constructor: deploys a new instance.
#[derive(Debug, Clone)]
pub struct Constructor {
    pub label: String,
    /// Hex-encoded selector, optionally `0x`-prefixed.
    pub selector: String,
    pub args: Vec<Arg>,
    pub payable: bool,
    pub docs: Vec<String>,
}

/// A callable contract message.
#[derive(Debug, Clone)]
pub struct Message {
    /// Label, possibly namespaced with a single `::` separator.
    pub label: String,
    /// Hex-encoded selector, optionally `0x`-prefixed.
    pub selector: String,
    pub args: Vec<Arg>,
    /// Type id of the return value.
    pub return_type: u32,
    /// True for a state-mutating message, false for a read-only one.
    pub mutates: bool,
    pub payable: bool,
    pub docs: Vec<String>,
}

/// One field of an emitted event.
#[derive(Debug, Clone)]
pub struct EventField {
    pub label: String,
    pub ty: u32,
    pub docs: Vec<String>,
}

/// An event the contract can emit; becomes one alternative of the generated
/// event enum.
#[derive(Debug, Clone)]
pub struct EventDef {
    pub label: String,
    pub args: Vec<EventField>,
    pub docs: Vec<String>,
}

/// The whole input document: registry, entry points, events and the
/// hex-encoded code identifier of the contract binary.
#[derive(Debug, Clone)]
pub struct ContractMetadata {
    pub registry: TypeRegistry,
    pub constructors: Vec<Constructor>,
    pub messages: Vec<Message>,
    pub events: Vec<EventDef>,
    /// Hex string, optionally `0x`-prefixed; 32 bytes once decoded.
    pub code_hash: String,
}

/// A homogeneous field list: all named or all unnamed, never mixed.
#[derive(Debug, Clone)]
pub enum Fields {
    /// Field names with their type ids, in declaration order.
    Named(Vec<(String, u32)>),
    /// Type ids of positional fields, in declaration order.
    Unnamed(Vec<u32>),
}

/// What `aggregate_fields` must return for the given field list: unnamed
/// lists collapse to their type ids, fully named lists keep name and id, and
/// a mix of the two is rejected.
pub open spec fn aggregate_ok(fields: Seq<Field>, r: Result<Fields, GenError>) -> bool {
    if forall|i: int| 0 <= i < fields.len() ==> fields[i].name is None {
        match r {
            Ok(Fields::Unnamed(tys)) => tys@.map_values(|t: u32| t) =~= fields.map_values(
                |f: Field| f.ty,
            ),
            _ => false,
        }
    } else if forall|i: int| 0 <= i < fields.len() ==> fields[i].name is Some {
        match r {
            Ok(Fields::Named(named)) => {
                &&& named@.len() == fields.len()
                &&& forall|i: int|
                    0 <= i < fields.len() ==> (#[trigger] named@[i]).0@ == fields[i].name->0@
                        && named@[i].1 == fields[i].ty
            },
            _ => false,
        }
    } else {
        r == Result::<Fields, GenError>::Err(GenError::MixedFields)
    }
}

/// Extraction of a homogeneous [`Fields`] list from an aggregate type.
pub trait AggregateFields {
    spec fn field_list(&self) -> Seq<Field>;

    /// The aggregate's fields, all named or all unnamed; a mix of the two
    /// is a fatal input error.
    fn aggregate_fields(&self) -> (r: Result<Fields, GenError>)
        ensures
            aggregate_ok(self.field_list(), r),
    ;
}

/// Shared implementation of [`AggregateFields`].
fn aggregate_field_vec(fields: &Vec<Field>) -> (r: Result<Fields, GenError>)
    ensures
        aggregate_ok(fields@, r),
{
    let mut all_named = true;
    let mut all_unnamed = true;
    let mut i: usize = 0;
    while i < fields.len()
        invariant
            i <= fields.len(),
            all_named == forall|j: int| 0 <= j < i ==> fields@[j].name is Some,
            all_unnamed == forall|j: int| 0 <= j < i ==> fields@[j].name is None,
        decreases fields.len() - i,
    {
        match &fields[i].name {
            Some(_) => {
                all_unnamed = false;
            },
            None => {
                all_named = false;
            },
        }
        i = i + 1;
    }
    if all_unnamed {
        let mut tys: Vec<u32> = Vec::new();
        let mut i: usize = 0;
        while i < fields.len()
            invariant
                i <= fields.len(),
                tys@ =~= fields@.take(i as int).map_values(|f: Field| f.ty),
            decreases fields.len() - i,
        {
            tys.push(fields[i].ty);
            proof {
                assert(fields@.take(i + 1 as int) =~= fields@.take(i as int).push(
                    fields@[i as int],
                ));
            }
            i = i + 1;
        }
        proof {
            assert(fields@.take(fields@.len() as int) =~= fields@);
        }
        Ok(Fields::Unnamed(tys))
    } else if all_named {
        let mut named: Vec<(String, u32)> = Vec::new();
        let mut i: usize = 0;
        while i < fields.len()
            invariant
                i <= fields.len(),
                forall|j: int| 0 <= j < fields@.len() ==> fields@[j].name is Some,
                named@.len() == i,
                forall|j: int|
                    0 <= j < i ==> (#[trigger] named@[j]).0@ == fields@[j].name->0@ && named@[j].1
                        == fields@[j].ty,
        decreases fields.len() - i,
        {
            let name = match &fields[i].name {
                Some(n) => n.clone(),
                None => String::new(),
            };
            named.push((name, fields[i].ty));
            i = i + 1;
        }
        Ok(Fields::Named(named))
    } else {
        Err(GenError::MixedFields)
    }
}

/// Law: a field list holding both a named and an unnamed field is always
/// rejected as mixed, never coerced to either kind.
pub proof fn lemma_mixed_fields_rejected(
    fields: Seq<Field>,
    r: Result<Fields, GenError>,
    i: int,
    j: int,
)
    requires
        aggregate_ok(fields, r),
        0 <= i < fields.len(),
        0 <= j < fields.len(),
        fields[i].name is Some,
        fields[j].name is None,
    ensures
        r == Result::<Fields, GenError>::Err(GenError::MixedFields),
{
    assert(!(forall|k: int| 0 <= k < fields.len() ==> fields[k].name is None)) by {
        assert(fields[i].name is Some);
    }
    assert(!(forall|k: int| 0 <= k < fields.len() ==> fields[k].name is Some)) by {
        assert(fields[j].name is None);
    }
}

impl AggregateFields for Variant {
    open spec fn field_list(&self) -> Seq<Field> {
        self.fields@
    }

    fn aggregate_fields(&self) -> (r: Result<Fields, GenError>) {
        aggregate_field_vec(&self.fields)
    }
}

impl AggregateFields for TypeDefComposite {
    open spec fn field_list(&self) -> Seq<Field> {
        self.fields@
    }

    fn aggregate_fields(&self) -> (r: Result<Fields, GenError>) {
        aggregate_field_vec(&self.fields)
    }
}

} // verus!
