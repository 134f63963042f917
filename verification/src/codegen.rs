//! The emitters: from classified metadata to the source text of the
//! generated module.
//!
//! Every emitter's output is pinned by a spec function over the metadata;
//! the top-level `generate` validates the whole document first and emits
//! nothing on a malformed input.

use vstd::prelude::*;

use crate::errors::GenError;
use crate::hexdata::hex_bytes;
use crate::hexdata::hex_to_bytes;
use crate::hexdata::strip_hex_prefix;
use crate::hexdata::valid_hex;
use crate::metadata::AggregateFields;
use crate::metadata::Arg;
use crate::metadata::Constructor;
use crate::metadata::ContractMetadata;
use crate::metadata::EventDef;
use crate::metadata::EventField;
use crate::metadata::Field;
use crate::metadata::Fields;
use crate::metadata::Message;
use crate::metadata::TypeDef;
use crate::metadata::TypeDefComposite;
use crate::metadata::TypeExtensions;
use crate::metadata::TypeRegistry;
use crate::metadata::Variant;
use crate::strutil::dec_str;
use crate::strutil::escaped;
use crate::strutil::escape_text;
use crate::strutil::push_char;
use crate::strutil::string_matches;
use crate::strutil::trim_text;
use crate::strutil::trimmed;
use crate::strutil::u32_to_dec;
use crate::typeref::resolvable;
use crate::typeref::type_text;
use crate::typeref::type_ref;
use crate::typeref::type_ref_prefix;

verus! {

/// The registry walk fuel: the registry size bounds every chain of
/// references that bottoms out.
pub open spec fn reg_fuel(reg: TypeRegistry) -> nat {
    reg.types@.len() as nat
}

/// Decimal byte values joined with `, `, as in a byte-vector literal.
pub open spec fn bytes_dec_list(bs: Seq<u8>) -> Seq<char>
    decreases bs.len(),
{
    if bs.len() == 0 {
        Seq::empty()
    } else if bs.len() == 1 {
        dec_str(bs[0] as int)
    } else {
        dec_str(bs[0] as int) + ", "@ + bytes_dec_list(bs.skip(1))
    }
}

proof fn lemma_bytes_dec_list_push(bs: Seq<u8>, b: u8)
    ensures
        bytes_dec_list(bs.push(b)) == if bs.len() == 0 {
            dec_str(b as int)
        } else {
            (bytes_dec_list(bs) + ", "@ + dec_str(b as int))
        },
    decreases bs.len(),
{
    if bs.len() == 0 {
        assert(bs.push(b) =~= seq![b]);
    } else if bs.len() == 1 {
        assert(bs.push(b).skip(1) =~= seq![b]);
        assert(bs.push(b)[0] == bs[0]);
        assert(bytes_dec_list(seq![b]) == dec_str(b as int));
        assert(bytes_dec_list(bs.push(b)) == dec_str(bs[0] as int) + ", "@ + dec_str(b as int));
        assert(dec_str(bs[0] as int) + ", "@ + dec_str(b as int) =~= (dec_str(bs[0] as int)
            + ", "@) + dec_str(b as int));
        assert(bytes_dec_list(bs) + ", "@ + dec_str(b as int) =~= (dec_str(bs[0] as int) + ", "@)
            + dec_str(b as int));
    } else {
        assert(bs.push(b).skip(1) =~= bs.skip(1).push(b));
        lemma_bytes_dec_list_push(bs.skip(1), b);
        assert(bs.push(b)[0] == bs[0]);
        assert(dec_str(bs[0] as int) + ", "@ + (bytes_dec_list(bs.skip(1)) + ", "@ + dec_str(
            b as int,
        )) =~= (dec_str(bs[0] as int) + ", "@ + bytes_dec_list(bs.skip(1))) + ", "@ + dec_str(
            b as int,
        ));
    }
}

/// Renders the bytes as a comma-separated decimal list.
pub fn render_bytes(bs: &Vec<u8>) -> (r: String)
    ensures
        r@ == bytes_dec_list(bs@),
{
    let mut r = String::new();
    let mut i: usize = 0;
    while i < bs.len()
        invariant
            i <= bs.len(),
            r@ == bytes_dec_list(bs@.take(i as int)),
        decreases bs.len() - i,
    {
        if i > 0 {
            r.append(", ");
        }
        let d = u32_to_dec(bs[i] as u32);
        r.append(d.as_str());
        proof {
            assert(bs@.take(i + 1 as int) =~= bs@.take(i as int).push(bs@[i as int]));
            lemma_bytes_dec_list_push(bs@.take(i as int), bs@[i as int]);
        }
        i = i + 1;
    }
    proof {
        assert(bs@.take(bs@.len() as int) =~= bs@);
    }
    r
}

/// The documentation text: the lines trimmed and concatenated.
pub open spec fn docs_body(lines: Seq<Seq<char>>) -> Seq<char>
    decreases lines.len(),
{
    if lines.len() == 0 {
        Seq::empty()
    } else {
        docs_body(lines.drop_last()) + trimmed(lines.last())
    }
}

/// The rendered doc attribute: empty for no lines, else one `#[doc = ..]`
/// attribute holding the trimmed lines, escaped for a string literal.
pub open spec fn spec_docs(lines: Seq<Seq<char>>) -> Seq<char> {
    if lines.len() == 0 {
        Seq::empty()
    } else {
        "#[doc = \""@ + escaped(docs_body(lines)) + "\"]\n"@
    }
}

/// Renders the doc attribute for the given doc lines.
pub fn quote_docs(lines: &Vec<String>) -> (r: String)
    ensures
        r@ == spec_docs(lines@.map_values(|l: String| l@)),
{
    if lines.len() == 0 {
        return String::new();
    }
    let mut body = String::new();
    let mut i: usize = 0;
    while i < lines.len()
        invariant
            i <= lines.len(),
            body@ == docs_body(lines@.map_values(|l: String| l@).take(i as int)),
        decreases lines.len() - i,
    {
        let t = trim_text(lines[i].as_str());
        body.append(t.as_str());
        proof {
            let views = lines@.map_values(|l: String| l@);
            assert(views.take(i + 1 as int).drop_last() =~= views.take(i as int));
            assert(views.take(i + 1 as int).last() == views[i as int]);
        }
        i = i + 1;
    }
    proof {
        let views = lines@.map_values(|l: String| l@);
        assert(views.take(views.len() as int) =~= views);
    }
    let mut r = String::from_str("#[doc = \"");
    let escaped_body = escape_text(body.as_str());
    r.append(escaped_body.as_str());
    r.append("\"]\n");
    r
}

/// `k` underscore characters.
pub open spec fn underscores(k: nat) -> Seq<char>
    decreases k,
{
    if k == 0 {
        Seq::empty()
    } else {
        "_"@ + underscores((k - 1) as nat)
    }
}

proof fn lemma_underscores_len(k: nat)
    ensures
        underscores(k).len() == k,
    decreases k,
{
    reveal_strlit("_");
    if k > 0 {
        lemma_underscores_len((k - 1) as nat);
    }
}

/// Some declared label equals `s`.
pub open spec fn name_taken(s: Seq<char>, labels: Seq<Seq<char>>) -> bool {
    exists|j: int| 0 <= j < labels.len() && labels[j] == s
}

/// The internal helper name derived from `base`: underscores are appended
/// until it collides with no declared label.
pub open spec fn spec_new_name(base: Seq<char>, labels: Seq<Seq<char>>, fuel: nat) -> Seq<char>
    decreases fuel,
{
    if fuel == 0 || !name_taken(base, labels) {
        base
    } else {
        spec_new_name(base + "_"@, labels, (fuel - 1) as nat)
    }
}

/// Appending underscores can only collide with finitely many labels: some
/// extension by at most `labels.len()` underscores is free.
proof fn lemma_new_name_exists(base: Seq<char>, labels: Seq<Seq<char>>)
    ensures
        exists|k: nat| k <= labels.len() && !name_taken(base + underscores(k), labels),
    decreases labels.len(),
{
    if !name_taken(base + underscores(0), labels) {
        assert(0 <= labels.len() && !name_taken(base + underscores(0), labels));
    } else {
        let j = choose|j: int| 0 <= j < labels.len() && labels[j] == base + underscores(0);
        let rest = labels.remove(j);
        lemma_new_name_exists(base + "_"@, rest);
        let k0 = choose|k: nat|
            k <= rest.len() && !name_taken((base + "_"@) + underscores(k), rest);
        let k = k0 + 1;
        assert((base + "_"@) + underscores(k0) =~= base + underscores(k)) by {
            assert(underscores(k) == "_"@ + underscores(k0));
        }
        assert(!name_taken(base + underscores(k), labels)) by {
            if name_taken(base + underscores(k), labels) {
                let i = choose|i: int|
                    0 <= i < labels.len() && labels[i] == base + underscores(k);
                if i == j {
                    lemma_underscores_len(k);
                    lemma_underscores_len(0);
                    assert(labels[j].len() == base.len());
                    assert(labels[i].len() == base.len() + k);
                } else {
                    let ri = if i < j {
                        i
                    } else {
                        i - 1
                    };
                    assert(rest[ri] == labels[i]);
                    assert(name_taken((base + "_"@) + underscores(k0), rest));
                }
            }
        }
        assert(k <= labels.len() && !name_taken(base + underscores(k), labels));
    }
}

/// The first free extension is what `spec_new_name` returns, for any fuel
/// that reaches it.
proof fn lemma_new_name_char(base: Seq<char>, labels: Seq<Seq<char>>, k: nat, fuel: nat)
    requires
        forall|j: nat| j < k ==> name_taken(base + underscores(j), labels),
        !name_taken(base + underscores(k), labels),
        fuel >= k + 1,
    ensures
        spec_new_name(base, labels, fuel) == base + underscores(k),
    decreases k,
{
    if k == 0 {
        assert(base + underscores(0) =~= base);
    } else {
        assert(name_taken(base + underscores(0), labels));
        assert(base + underscores(0) =~= base);
        assert forall|j: nat| j < k - 1 implies name_taken(
            (base + "_"@) + underscores(j),
            labels,
        ) by {
            assert(name_taken(base + underscores(j + 1), labels));
            assert((base + "_"@) + underscores(j) =~= base + underscores(j + 1));
        }
        assert((base + "_"@) + underscores((k - 1) as nat) =~= base + underscores(k));
        lemma_new_name_char(base + "_"@, labels, (k - 1) as nat, (fuel - 1) as nat);
    }
}

/// The label views of an argument list.
pub open spec fn arg_labels(args: Seq<Arg>) -> Seq<Seq<char>> {
    args.map_values(|a: Arg| a.label@)
}

/// The accumulator name used by a call body: `base`, extended with
/// underscores until it collides with no declared argument name.
pub open spec fn data_name(base: Seq<char>, args: Seq<Arg>) -> Seq<char> {
    spec_new_name(base, arg_labels(args), (args.len() + 1) as nat)
}

/// Picks a helper identifier that no declared argument uses, by extending
/// `base` with underscores; the result is the shortest free extension.
pub fn new_name(base: &str, args: &Vec<Arg>) -> (r: String)
    ensures
        r@ == data_name(base@, args@),
        !name_taken(r@, arg_labels(args@)),
{
    let ghost labels = arg_labels(args@);
    let mut name = String::from_str(base);
    let ghost mut k: nat = 0nat;
    proof {
        assert(name@ =~= base@ + underscores(0));
    }
    loop
        invariant
            k <= labels.len(),
            name@ == base@ + underscores(k),
            labels == arg_labels(args@),
            forall|j: nat| j < k ==> name_taken(base@ + underscores(j), labels),
        decreases labels.len() - k,
    {
        let mut taken = false;
        let mut i: usize = 0;
        while i < args.len()
            invariant
                i <= args.len(),
                labels == arg_labels(args@),
                taken == exists|j: int| 0 <= j < i && labels[j] == name@,
            decreases args.len() - i,
        {
            if string_matches(&args[i].label, name.as_str()) {
                taken = true;
                proof {
                    assert(labels[i as int] == name@);
                }
            }
            i = i + 1;
        }
        proof {
            assert(taken == name_taken(name@, labels));
        }
        if !taken {
            proof {
                lemma_new_name_char(base@, labels, k, (labels.len() + 1) as nat);
            }
            return name;
        }
        proof {
            if k == labels.len() {
                lemma_new_name_exists(base@, labels);
                let k0 = choose|k0: nat|
                    k0 <= labels.len() && !name_taken(base@ + underscores(k0), labels);
                assert(name_taken(base@ + underscores(k0), labels));
            }
            assert(k < labels.len());
        }
        push_char(&mut name, '_');
        proof {
            assert(underscores(k + 1) =~= underscores(k) + seq!['_']) by {
                lemma_underscores_append_one(k);
            }
            assert(name@ =~= base@ + underscores(k + 1));
            k = k + 1;
        }
    }
}

proof fn lemma_underscores_append_one(k: nat)
    ensures
        underscores(k + 1) == underscores(k) + seq!['_'],
    decreases k,
{
    if k == 0 {
        assert(underscores(1) == "_"@ + underscores(0));
        assert(underscores(0) + seq!['_'] =~= "_"@ + underscores(0)) by {
            reveal_strlit("_");
        }
    } else {
        lemma_underscores_append_one((k - 1) as nat);
        assert(underscores(k + 1) == "_"@ + underscores(k));
        assert("_"@ + (underscores((k - 1) as nat) + seq!['_']) =~= ("_"@ + underscores(
            (k - 1) as nat,
        )) + seq!['_']);
    }
}

/// All argument types of the list are resolvable.
pub open spec fn args_resolvable(reg: TypeRegistry, args: Seq<Arg>) -> bool {
    forall|i: int| 0 <= i < args.len() ==> resolvable(reg, #[trigger] args[i].ty, reg_fuel(reg))
}

/// The declared argument list of a signature: `label: Type`, comma-joined.
pub open spec fn args_text(reg: TypeRegistry, args: Seq<Arg>) -> Seq<char>
    decreases args.len(),
{
    if args.len() == 0 {
        Seq::empty()
    } else if args.len() == 1 {
        args[0].label@ + ": "@ + type_text(reg, args[0].ty, ""@, reg_fuel(reg))
    } else {
        args[0].label@ + ": "@ + type_text(reg, args[0].ty, ""@, reg_fuel(reg)) + ", "@
            + args_text(reg, args.skip(1))
    }
}

proof fn lemma_args_text_push(reg: TypeRegistry, args: Seq<Arg>, a: Arg)
    ensures
        args_text(reg, args.push(a)) == if args.len() == 0 {
            (a.label@ + ": "@ + type_text(reg, a.ty, ""@, reg_fuel(reg)))
        } else {
            (args_text(reg, args) + ", "@ + (a.label@ + ": "@ + type_text(
                reg,
                a.ty,
                ""@,
                reg_fuel(reg),
            )))
        },
    decreases args.len(),
{
    let piece = a.label@ + ": "@ + type_text(reg, a.ty, ""@, reg_fuel(reg));
    if args.len() == 0 {
        assert(args.push(a) =~= seq![a]);
    } else if args.len() == 1 {
        assert(args.push(a).skip(1) =~= seq![a]);
        assert(args.push(a)[0] == args[0]);
        let p0 = args[0].label@ + ": "@ + type_text(reg, args[0].ty, ""@, reg_fuel(reg));
        assert(args_text(reg, seq![a]) == piece);
        assert(args_text(reg, args.push(a)) == p0 + ", "@ + piece);
        assert(p0 + ", "@ + piece =~= (p0 + ", "@) + piece);
        assert(args_text(reg, args) + ", "@ + piece =~= (p0 + ", "@) + piece);
    } else {
        assert(args.push(a).skip(1) =~= args.skip(1).push(a));
        assert(args.push(a)[0] == args[0]);
        lemma_args_text_push(reg, args.skip(1), a);
        let p0 = args[0].label@ + ": "@ + type_text(reg, args[0].ty, ""@, reg_fuel(reg));
        assert(p0 + ", "@ + (args_text(reg, args.skip(1)) + ", "@ + piece) =~= (p0 + ", "@
            + args_text(reg, args.skip(1))) + ", "@ + piece);
    }
}

/// Renders the declared argument list of a signature.  Fails on the first
/// argument whose type does not resolve.
pub fn message_args(args: &Vec<Arg>, reg: &TypeRegistry) -> (r: Result<String, GenError>)
    ensures
        match r {
            Ok(s) => args_resolvable(*reg, args@) && s@ == args_text(*reg, args@),
            Err(_) => !args_resolvable(*reg, args@),
        },
{
    let mut r = String::new();
    let mut i: usize = 0;
    while i < args.len()
        invariant
            i <= args.len(),
            forall|j: int|
                0 <= j < i ==> resolvable(*reg, #[trigger] args@[j].ty, reg_fuel(*reg)),
            r@ == args_text(*reg, args@.take(i as int)),
        decreases args.len() - i,
    {
        if i > 0 {
            r.append(", ");
        }
        r.append(args[i].label.as_str());
        r.append(": ");
        match type_ref(reg, args[i].ty) {
            Ok(t) => {
                r.append(t.as_str());
            },
            Err(e) => {
                return Err(e);
            },
        }
        proof {
            assert(args@.take(i + 1 as int) =~= args@.take(i as int).push(args@[i as int]));
            lemma_args_text_push(*reg, args@.take(i as int), args@[i as int]);
        }
        i = i + 1;
    }
    proof {
        assert(args@.take(args@.len() as int) =~= args@);
    }
    Ok(r)
}

/// The statements that append each argument's encoding to the accumulator,
/// in declared order.
pub open spec fn encode_stmts(args: Seq<Arg>, dname: Seq<char>) -> Seq<char>
    decreases args.len(),
{
    if args.len() == 0 {
        Seq::empty()
    } else {
        encode_stmts(args.drop_last(), dname) + args.last().label@ + ".encode_to(&mut "@ + dname
            + "); "@
    }
}

/// The expression that builds the call data: the selector bytes alone for a
/// message without arguments, else a block that appends each argument's
/// encoding to the selector bytes.
pub open spec fn gather_text(sel: Seq<u8>, args: Seq<Arg>, dname: Seq<char>) -> Seq<char> {
    if args.len() == 0 {
        "vec!["@ + bytes_dec_list(sel) + "]"@
    } else {
        "{ let mut "@ + dname + " = vec!["@ + bytes_dec_list(sel) + "]; "@ + encode_stmts(
            args,
            dname,
        ) + dname + " }"@
    }
}

/// Renders the call-data expression for the given selector bytes and
/// arguments, using `dname` as the accumulator identifier.
pub fn gather_args(sel: &Vec<u8>, args: &Vec<Arg>, dname: &str) -> (r: String)
    ensures
        r@ == gather_text(sel@, args@, dname@),
{
    let bytes = render_bytes(sel);
    if args.len() == 0 {
        let mut r = String::from_str("vec![");
        r.append(bytes.as_str());
        r.append("]");
        r
    } else {
        let mut r = String::from_str("{ let mut ");
        r.append(dname);
        r.append(" = vec![");
        r.append(bytes.as_str());
        r.append("]; ");
        let mut i: usize = 0;
        while i < args.len()
            invariant
                i <= args.len(),
                r@ == "{ let mut "@ + dname@ + " = vec!["@ + bytes_dec_list(sel@) + "]; "@
                    + encode_stmts(args@.take(i as int), dname@),
            decreases args.len() - i,
        {
            r.append(args[i].label.as_str());
            r.append(".encode_to(&mut ");
            r.append(dname);
            r.append("); ");
            proof {
                assert(args@.take(i + 1 as int).drop_last() =~= args@.take(i as int));
                assert(args@.take(i + 1 as int).last() == args@[i as int]);
            }
            i = i + 1;
        }
        r.append(dname);
        r.append(" }");
        proof {
            assert(args@.take(args@.len() as int) =~= args@);
            assert(r@ =~= gather_text(sel@, args@, dname@));
        }
        r
    }
}

/// A well-formed constructor: decodable selector, resolvable argument
/// types.
pub open spec fn ctor_valid(reg: TypeRegistry, c: Constructor) -> bool {
    &&& valid_hex(strip_hex_prefix(c.selector@))
    &&& args_resolvable(reg, c.args@)
}

/// The selector bytes a constructor declares.
pub open spec fn ctor_sel(c: Constructor) -> Seq<u8> {
    hex_bytes(strip_hex_prefix(c.selector@))
}

/// A well-formed message: a label with at most one namespace separator, a
/// decodable selector, resolvable argument and return types.
pub open spec fn msg_valid(reg: TypeRegistry, m: Message) -> bool {
    &&& crate::classify::valid_label(m.label@)
    &&& valid_hex(strip_hex_prefix(m.selector@))
    &&& args_resolvable(reg, m.args@)
    &&& resolvable(reg, m.return_type, reg_fuel(reg))
}

/// The selector bytes a message declares.
pub open spec fn msg_sel(m: Message) -> Seq<u8> {
    hex_bytes(strip_hex_prefix(m.selector@))
}

/// The emitted text of one constructor function: a function over the
/// declared arguments that packs the selector and their encodings and
/// wraps them in an instantiate request (one still missing its transferred
/// value when the constructor is payable).
pub open spec fn ctor_text(reg: TypeRegistry, c: Constructor) -> Seq<char> {
    let dname = data_name("data"@, c.args@);
    let ret = if c.payable {
        "ink_wrapper_types::InstantiateCallNeedsValue<Self>"@
    } else {
        "ink_wrapper_types::InstantiateCall<Self>"@
    };
    let mk = if c.payable {
        "ink_wrapper_types::InstantiateCallNeedsValue::new(CODE_HASH, "@
    } else {
        "ink_wrapper_types::InstantiateCall::new(CODE_HASH, "@
    };
    spec_docs(c.docs@.map_values(|l: String| l@)) + "#[allow(dead_code, clippy::too_many_arguments)]\npub fn "@
        + c.label@ + "("@ + args_text(reg, c.args@) + ") -> "@ + ret + " {\n    let "@ + dname
        + " = "@ + gather_text(ctor_sel(c), c.args@, dname) + ";\n    "@ + mk + dname + ")\n}\n"@
}

/// Renders one constructor function.
pub fn define_constructor(c: &Constructor, reg: &TypeRegistry) -> (r: String)
    requires
        ctor_valid(*reg, *c),
    ensures
        r@ == ctor_text(*reg, *c),
{
    let sel = match hex_to_bytes(c.selector.as_str()) {
        Ok(v) => v,
        Err(_) => Vec::new(),
    };
    let dname = new_name("data", &c.args);
    let args = match message_args(&c.args, reg) {
        Ok(s) => s,
        Err(_) => String::new(),
    };
    let mut r = quote_docs(&c.docs);
    r.append("#[allow(dead_code, clippy::too_many_arguments)]\npub fn ");
    r.append(c.label.as_str());
    r.append("(");
    r.append(args.as_str());
    r.append(") -> ");
    if c.payable {
        r.append("ink_wrapper_types::InstantiateCallNeedsValue<Self>");
    } else {
        r.append("ink_wrapper_types::InstantiateCall<Self>");
    }
    r.append(" {\n    let ");
    r.append(dname.as_str());
    r.append(" = ");
    let gathered = gather_args(&sel, &c.args, dname.as_str());
    r.append(gathered.as_str());
    r.append(";\n    ");
    if c.payable {
        r.append("ink_wrapper_types::InstantiateCallNeedsValue::new(CODE_HASH, ");
    } else {
        r.append("ink_wrapper_types::InstantiateCall::new(CODE_HASH, ");
    }
    r.append(dname.as_str());
    r.append(")\n}\n");
    proof {
        assert(r@ =~= ctor_text(*reg, *c));
    }
    r
}

/// The visibility marker followed by a space, or nothing.
pub open spec fn vis_text(vis: Seq<char>) -> Seq<char> {
    if vis.len() == 0 {
        Seq::empty()
    } else {
        vis + " "@
    }
}

/// Renders the visibility marker of a method.
pub fn quote_visibility(vis: &str) -> (r: String)
    ensures
        r@ == vis_text(vis@),
{
    if vis.unicode_len() == 0 {
        String::new()
    } else {
        let mut r = String::from_str(vis);
        r.append(" ");
        r
    }
}

/// The method name of a message: what follows the last `::` of its label.
pub open spec fn method_text(m: Message) -> Seq<char> {
    crate::classify::split_parts(m.label@).last()
}

/// The emitted signature of a read-only message: it takes the declared
/// arguments and returns a read request carrying the decoded result type
/// (one still missing its value when the message is payable).
pub open spec fn reader_head_text(reg: TypeRegistry, m: Message, vis: Seq<char>) -> Seq<char> {
    let ret = if m.payable {
        "ink_wrapper_types::ReadCallNeedsValue<"@
    } else {
        "ink_wrapper_types::ReadCall<"@
    };
    vis_text(vis) + "fn "@ + method_text(m) + "(&self, "@ + args_text(reg, m.args@) + ") -> "@
        + ret + type_text(reg, m.return_type, ""@, reg_fuel(reg)) + ">"@
}

/// The emitted signature of a state-mutating message.
pub open spec fn mutator_head_text(reg: TypeRegistry, m: Message, vis: Seq<char>) -> Seq<char> {
    let ret = if m.payable {
        "ink_wrapper_types::ExecCallNeedsValue"@
    } else {
        "ink_wrapper_types::ExecCall"@
    };
    vis_text(vis) + "fn "@ + method_text(m) + "(&self, "@ + args_text(reg, m.args@) + ") -> "@
        + ret
}

/// The emitted signature of a message, by its mutates flag.
pub open spec fn msg_head_text(reg: TypeRegistry, m: Message, vis: Seq<char>) -> Seq<char> {
    if m.mutates {
        mutator_head_text(reg, m, vis)
    } else {
        reader_head_text(reg, m, vis)
    }
}

/// Renders the signature of a read-only message.
pub fn define_reader_head(m: &Message, vis: &str, reg: &TypeRegistry) -> (r: String)
    requires
        msg_valid(*reg, *m),
    ensures
        r@ == reader_head_text(*reg, *m, vis@),
{
    let mut r = quote_visibility(vis);
    r.append("fn ");
    let method = crate::classify::label_method_name(m.label.as_str());
    r.append(method.as_str());
    r.append("(&self, ");
    let args = match message_args(&m.args, reg) {
        Ok(s) => s,
        Err(_) => String::new(),
    };
    r.append(args.as_str());
    r.append(") -> ");
    if m.payable {
        r.append("ink_wrapper_types::ReadCallNeedsValue<");
    } else {
        r.append("ink_wrapper_types::ReadCall<");
    }
    let ret = match type_ref(reg, m.return_type) {
        Ok(s) => s,
        Err(_) => String::new(),
    };
    r.append(ret.as_str());
    r.append(">");
    proof {
        assert(r@ =~= reader_head_text(*reg, *m, vis@));
    }
    r
}

/// Renders the signature of a state-mutating message.
pub fn define_mutator_head(m: &Message, vis: &str, reg: &TypeRegistry) -> (r: String)
    requires
        msg_valid(*reg, *m),
    ensures
        r@ == mutator_head_text(*reg, *m, vis@),
{
    let mut r = quote_visibility(vis);
    r.append("fn ");
    let method = crate::classify::label_method_name(m.label.as_str());
    r.append(method.as_str());
    r.append("(&self, ");
    let args = match message_args(&m.args, reg) {
        Ok(s) => s,
        Err(_) => String::new(),
    };
    r.append(args.as_str());
    r.append(") -> ");
    if m.payable {
        r.append("ink_wrapper_types::ExecCallNeedsValue");
    } else {
        r.append("ink_wrapper_types::ExecCall");
    }
    proof {
        assert(r@ =~= mutator_head_text(*reg, *m, vis@));
    }
    r
}

/// Renders the signature of a message, by its mutates flag.
pub fn define_message_head(m: &Message, vis: &str, reg: &TypeRegistry) -> (r: String)
    requires
        msg_valid(*reg, *m),
    ensures
        r@ == msg_head_text(*reg, *m, vis@),
{
    if m.mutates {
        define_mutator_head(m, vis, reg)
    } else {
        define_reader_head(m, vis, reg)
    }
}

/// The emitted text of a read-only message wrapper: the call header is
/// packed from the selector and the argument encodings and wrapped in a
/// read request aimed at the instance's account identifier.
pub open spec fn reader_text(reg: TypeRegistry, m: Message, vis: Seq<char>) -> Seq<char> {
    let dname = data_name("data"@, m.args@);
    let mk = if m.payable {
        "ink_wrapper_types::ReadCallNeedsValue::new(self.account_id, "@
    } else {
        "ink_wrapper_types::ReadCall::new(self.account_id, "@
    };
    spec_docs(m.docs@.map_values(|l: String| l@)) + "#[allow(dead_code, clippy::too_many_arguments)]\n"@
        + reader_head_text(reg, m, vis) + " {\n    let "@ + dname + " = "@ + gather_text(
        msg_sel(m),
        m.args@,
        dname,
    ) + ";\n    "@ + mk + dname + ")\n}\n"@
}

/// The emitted text of a state-mutating message wrapper: as the reader,
/// but wrapped in an exec request.
pub open spec fn mutator_text(reg: TypeRegistry, m: Message, vis: Seq<char>) -> Seq<char> {
    let dname = data_name("data"@, m.args@);
    let mk = if m.payable {
        "ink_wrapper_types::ExecCallNeedsValue::new(self.account_id, "@
    } else {
        "ink_wrapper_types::ExecCall::new(self.account_id, "@
    };
    spec_docs(m.docs@.map_values(|l: String| l@)) + "#[allow(dead_code, clippy::too_many_arguments)]\n"@
        + mutator_head_text(reg, m, vis) + " {\n    let "@ + dname + " = "@ + gather_text(
        msg_sel(m),
        m.args@,
        dname,
    ) + ";\n    "@ + mk + dname + ")\n}\n"@
}

/// The emitted text of a message wrapper, by its mutates flag.
pub open spec fn msg_text(reg: TypeRegistry, m: Message, vis: Seq<char>) -> Seq<char> {
    if m.mutates {
        mutator_text(reg, m, vis)
    } else {
        reader_text(reg, m, vis)
    }
}

/// Renders a read-only message wrapper.
pub fn define_reader(m: &Message, vis: &str, reg: &TypeRegistry) -> (r: String)
    requires
        msg_valid(*reg, *m),
    ensures
        r@ == reader_text(*reg, *m, vis@),
{
    let sel = match hex_to_bytes(m.selector.as_str()) {
        Ok(v) => v,
        Err(_) => Vec::new(),
    };
    let dname = new_name("data", &m.args);
    let mut r = quote_docs(&m.docs);
    r.append("#[allow(dead_code, clippy::too_many_arguments)]\n");
    let head = define_reader_head(m, vis, reg);
    r.append(head.as_str());
    r.append(" {\n    let ");
    r.append(dname.as_str());
    r.append(" = ");
    let gathered = gather_args(&sel, &m.args, dname.as_str());
    r.append(gathered.as_str());
    r.append(";\n    ");
    if m.payable {
        r.append("ink_wrapper_types::ReadCallNeedsValue::new(self.account_id, ");
    } else {
        r.append("ink_wrapper_types::ReadCall::new(self.account_id, ");
    }
    r.append(dname.as_str());
    r.append(")\n}\n");
    proof {
        assert(r@ =~= reader_text(*reg, *m, vis@));
    }
    r
}

/// Renders a state-mutating message wrapper.
pub fn define_mutator(m: &Message, vis: &str, reg: &TypeRegistry) -> (r: String)
    requires
        msg_valid(*reg, *m),
    ensures
        r@ == mutator_text(*reg, *m, vis@),
{
    let sel = match hex_to_bytes(m.selector.as_str()) {
        Ok(v) => v,
        Err(_) => Vec::new(),
    };
    let dname = new_name("data", &m.args);
    let mut r = quote_docs(&m.docs);
    r.append("#[allow(dead_code, clippy::too_many_arguments)]\n");
    let head = define_mutator_head(m, vis, reg);
    r.append(head.as_str());
    r.append(" {\n    let ");
    r.append(dname.as_str());
    r.append(" = ");
    let gathered = gather_args(&sel, &m.args, dname.as_str());
    r.append(gathered.as_str());
    r.append(";\n    ");
    if m.payable {
        r.append("ink_wrapper_types::ExecCallNeedsValue::new(self.account_id, ");
    } else {
        r.append("ink_wrapper_types::ExecCall::new(self.account_id, ");
    }
    r.append(dname.as_str());
    r.append(")\n}\n");
    proof {
        assert(r@ =~= mutator_text(*reg, *m, vis@));
    }
    r
}

/// Renders a message wrapper, by its mutates flag.
pub fn define_message(m: &Message, vis: &str, reg: &TypeRegistry) -> (r: String)
    requires
        msg_valid(*reg, *m),
    ensures
        r@ == msg_text(*reg, *m, vis@),
{
    if m.mutates {
        define_mutator(m, vis, reg)
    } else {
        define_reader(m, vis, reg)
    }
}

/// Every field of the list is named.
pub open spec fn fields_all_named(fields: Seq<Field>) -> bool {
    forall|i: int| 0 <= i < fields.len() ==> (#[trigger] fields[i].name) is Some
}

/// Every field of the list is unnamed.
pub open spec fn fields_all_unnamed(fields: Seq<Field>) -> bool {
    forall|i: int| 0 <= i < fields.len() ==> (#[trigger] fields[i].name) is None
}

/// All named or all unnamed; a mix is a fatal input error.
pub open spec fn fields_homogeneous(fields: Seq<Field>) -> bool {
    fields_all_named(fields) || fields_all_unnamed(fields)
}

/// Every field type of the list resolves.
pub open spec fn fields_resolvable(reg: TypeRegistry, fields: Seq<Field>) -> bool {
    forall|i: int| 0 <= i < fields.len() ==> resolvable(reg, #[trigger] fields[i].ty, reg_fuel(reg))
}

/// The type ids of a field list, in order.
pub open spec fn fields_tys(fields: Seq<Field>) -> Seq<u32> {
    fields.map_values(|f: Field| f.ty)
}

/// `name: Type` pairs of a named field list, comma-joined.
pub open spec fn named_fields_text(reg: TypeRegistry, fields: Seq<(String, u32)>) -> Seq<char>
    decreases fields.len(),
{
    if fields.len() == 0 {
        Seq::empty()
    } else if fields.len() == 1 {
        fields[0].0@ + ": "@ + type_text(reg, fields[0].1, ""@, reg_fuel(reg))
    } else {
        fields[0].0@ + ": "@ + type_text(reg, fields[0].1, ""@, reg_fuel(reg)) + ", "@
            + named_fields_text(reg, fields.skip(1))
    }
}

proof fn lemma_named_fields_text_push(reg: TypeRegistry, fields: Seq<(String, u32)>, f: (String, u32))
    ensures
        named_fields_text(reg, fields.push(f)) == if fields.len() == 0 {
            (f.0@ + ": "@ + type_text(reg, f.1, ""@, reg_fuel(reg)))
        } else {
            (named_fields_text(reg, fields) + ", "@ + (f.0@ + ": "@ + type_text(
                reg,
                f.1,
                ""@,
                reg_fuel(reg),
            )))
        },
    decreases fields.len(),
{
    let piece = f.0@ + ": "@ + type_text(reg, f.1, ""@, reg_fuel(reg));
    if fields.len() == 0 {
        assert(fields.push(f) =~= seq![f]);
    } else if fields.len() == 1 {
        assert(fields.push(f).skip(1) =~= seq![f]);
        assert(fields.push(f)[0] == fields[0]);
        assert(named_fields_text(reg, seq![f]) == piece);
        let p0 = fields[0].0@ + ": "@ + type_text(reg, fields[0].1, ""@, reg_fuel(reg));
        assert(named_fields_text(reg, fields.push(f)) == p0 + ", "@ + piece);
        assert(p0 + ", "@ + piece =~= (p0 + ", "@) + piece);
        assert(named_fields_text(reg, fields) + ", "@ + piece =~= (p0 + ", "@) + piece);
    } else {
        assert(fields.push(f).skip(1) =~= fields.skip(1).push(f));
        assert(fields.push(f)[0] == fields[0]);
        lemma_named_fields_text_push(reg, fields.skip(1), f);
        let p0 = fields[0].0@ + ": "@ + type_text(reg, fields[0].1, ""@, reg_fuel(reg));
        assert(p0 + ", "@ + (named_fields_text(reg, fields.skip(1)) + ", "@ + piece) =~= (p0
            + ", "@ + named_fields_text(reg, fields.skip(1))) + ", "@ + piece);
    }
}

/// Renders `name: Type` pairs, comma-joined.
fn render_named_fields(fields: &Vec<(String, u32)>, reg: &TypeRegistry) -> (r: Result<
    String,
    GenError,
>)
    ensures
        match r {
            Ok(s) => s@ == named_fields_text(*reg, fields@),
            Err(_) => exists|i: int|
                0 <= i < fields@.len() && !resolvable(
                    *reg,
                    (#[trigger] fields@[i]).1,
                    reg_fuel(*reg),
                ),
        },
{
    let mut r = String::new();
    let mut i: usize = 0;
    while i < fields.len()
        invariant
            i <= fields.len(),
            r@ == named_fields_text(*reg, fields@.take(i as int)),
        decreases fields.len() - i,
    {
        if i > 0 {
            r.append(", ");
        }
        r.append(fields[i].0.as_str());
        r.append(": ");
        match type_ref(reg, fields[i].1) {
            Ok(t) => {
                r.append(t.as_str());
            },
            Err(e) => {
                return Err(e);
            },
        }
        proof {
            assert(fields@.take(i + 1 as int) =~= fields@.take(i as int).push(
                fields@[i as int],
            ));
            lemma_named_fields_text_push(*reg, fields@.take(i as int), fields@[i as int]);
        }
        i = i + 1;
    }
    proof {
        assert(fields@.take(fields@.len() as int) =~= fields@);
    }
    Ok(r)
}

/// Renders a comma-joined list of type references for the given ids.
fn render_ty_list(tys: &Vec<u32>, reg: &TypeRegistry) -> (r: Result<String, GenError>)
    ensures
        match r {
            Ok(s) => s@ == crate::typeref::type_text_list(*reg, tys@, ""@, reg_fuel(*reg)),
            Err(_) => exists|i: int|
                0 <= i < tys@.len() && !resolvable(*reg, #[trigger] tys@[i], reg_fuel(*reg)),
        },
{
    let mut r = String::new();
    let mut i: usize = 0;
    while i < tys.len()
        invariant
            i <= tys.len(),
            r@ == crate::typeref::type_text_list(*reg, tys@.take(i as int), ""@, reg_fuel(*reg)),
        decreases tys.len() - i,
    {
        if i > 0 {
            r.append(", ");
        }
        match type_ref(reg, tys[i]) {
            Ok(t) => {
                r.append(t.as_str());
            },
            Err(e) => {
                return Err(e);
            },
        }
        proof {
            assert(tys@.take(i + 1 as int) =~= tys@.take(i as int).push(tys@[i as int]));
            lemma_ty_list_push(*reg, tys@.take(i as int), tys@[i as int]);
        }
        i = i + 1;
    }
    proof {
        assert(tys@.take(tys@.len() as int) =~= tys@);
    }
    Ok(r)
}

proof fn lemma_ty_list_push(reg: TypeRegistry, tys: Seq<u32>, t: u32)
    ensures
        crate::typeref::type_text_list(reg, tys.push(t), ""@, reg_fuel(reg)) == if tys.len() == 0 {
            type_text(reg, t, ""@, reg_fuel(reg))
        } else {
            (crate::typeref::type_text_list(reg, tys, ""@, reg_fuel(reg)) + ", "@ + type_text(
                reg,
                t,
                ""@,
                reg_fuel(reg),
            ))
        },
    decreases tys.len(),
{
    let fuel = reg_fuel(reg);
    let piece = type_text(reg, t, ""@, fuel);
    if tys.len() == 0 {
        assert(tys.push(t) =~= seq![t]);
    } else if tys.len() == 1 {
        assert(tys.push(t).skip(1) =~= seq![t]);
        assert(tys.push(t)[0] == tys[0]);
        assert(crate::typeref::type_text_list(reg, seq![t], ""@, fuel) == piece);
        let p0 = type_text(reg, tys[0], ""@, fuel);
        assert(crate::typeref::type_text_list(reg, tys.push(t), ""@, fuel) == p0 + ", "@ + piece);
        assert(p0 + ", "@ + piece =~= (p0 + ", "@) + piece);
        assert(crate::typeref::type_text_list(reg, tys, ""@, fuel) + ", "@ + piece =~= (p0 + ", "@)
            + piece);
    } else {
        assert(tys.push(t).skip(1) =~= tys.skip(1).push(t));
        assert(tys.push(t)[0] == tys[0]);
        lemma_ty_list_push(reg, tys.skip(1), t);
        let p0 = type_text(reg, tys[0], ""@, fuel);
        assert(p0 + ", "@ + (crate::typeref::type_text_list(reg, tys.skip(1), ""@, fuel) + ", "@
            + piece) =~= (p0 + ", "@ + crate::typeref::type_text_list(reg, tys.skip(1), ""@, fuel))
            + ", "@ + piece);
    }
}

/// The text of `name: Type` pairs of a named field list, straight from the
/// fields.
pub open spec fn raw_named_fields_text(reg: TypeRegistry, fields: Seq<Field>) -> Seq<char>
    decreases fields.len(),
{
    if fields.len() == 0 {
        Seq::empty()
    } else if fields.len() == 1 {
        fields[0].name->0@ + ": "@ + type_text(reg, fields[0].ty, ""@, reg_fuel(reg))
    } else {
        fields[0].name->0@ + ": "@ + type_text(reg, fields[0].ty, ""@, reg_fuel(reg)) + ", "@
            + raw_named_fields_text(reg, fields.skip(1))
    }
}

proof fn lemma_named_fields_agree(reg: TypeRegistry, named: Seq<(String, u32)>, fields: Seq<Field>)
    requires
        named.len() == fields.len(),
        forall|i: int|
            0 <= i < fields.len() ==> (#[trigger] named[i]).0@ == fields[i].name->0@ && named[i].1
                == fields[i].ty,
    ensures
        named_fields_text(reg, named) == raw_named_fields_text(reg, fields),
    decreases fields.len(),
{
    if fields.len() <= 1 {
    } else {
        assert forall|i: int| 0 <= i < fields.skip(1).len() implies (#[trigger] named.skip(1)[i]).0@
            == fields.skip(1)[i].name->0@ && named.skip(1)[i].1 == fields.skip(1)[i].ty by {
            assert(named.skip(1)[i] == named[i + 1]);
            assert(fields.skip(1)[i] == fields[i + 1]);
        }
        lemma_named_fields_agree(reg, named.skip(1), fields.skip(1));
    }
}

/// One alternative of an emitted sum type: braces with `name: Type` pairs
/// for named fields, parentheses with type references for unnamed ones.
pub open spec fn variant_text(reg: TypeRegistry, v: Variant) -> Seq<char> {
    if fields_all_unnamed(v.fields@) {
        v.name@ + "("@ + crate::typeref::type_text_list(
            reg,
            fields_tys(v.fields@),
            ""@,
            reg_fuel(reg),
        ) + ")"@
    } else {
        v.name@ + " { "@ + raw_named_fields_text(reg, v.fields@) + " }"@
    }
}

/// Renders one alternative with named fields.
pub fn named_variant(name: &str, fields: &Vec<(String, u32)>, reg: &TypeRegistry) -> (r: Result<
    String,
    GenError,
>)
    ensures
        match r {
            Ok(s) => s@ == name@ + " { "@ + named_fields_text(*reg, fields@) + " }"@,
            Err(_) => exists|i: int|
                0 <= i < fields@.len() && !resolvable(
                    *reg,
                    (#[trigger] fields@[i]).1,
                    reg_fuel(*reg),
                ),
        },
{
    let mut r = String::from_str(name);
    r.append(" { ");
    match render_named_fields(fields, reg) {
        Ok(s) => {
            r.append(s.as_str());
        },
        Err(e) => {
            return Err(e);
        },
    }
    r.append(" }");
    Ok(r)
}

/// Renders one alternative with unnamed fields.
pub fn unnamed_variant(name: &str, fields: &Vec<u32>, reg: &TypeRegistry) -> (r: Result<
    String,
    GenError,
>)
    ensures
        match r {
            Ok(s) => s@ == name@ + "("@ + crate::typeref::type_text_list(
                *reg,
                fields@,
                ""@,
                reg_fuel(*reg),
            ) + ")"@,
            Err(_) => exists|i: int|
                0 <= i < fields@.len() && !resolvable(*reg, #[trigger] fields@[i], reg_fuel(*reg)),
        },
{
    let mut r = String::from_str(name);
    r.append("(");
    match render_ty_list(fields, reg) {
        Ok(s) => {
            r.append(s.as_str());
        },
        Err(e) => {
            return Err(e);
        },
    }
    r.append(")");
    Ok(r)
}

/// The derive attribute every emitted declaration carries: structural
/// equality, cloning, and the codec round trip.
pub open spec fn derive_line() -> Seq<char> {
    "#[derive(Debug, Clone, PartialEq, Eq, scale::Encode, scale::Decode)]\n"@
}

/// The emitted alternatives of a sum type, each indented and
/// comma-terminated.
pub open spec fn variants_text(reg: TypeRegistry, vs: Seq<Variant>) -> Seq<char>
    decreases vs.len(),
{
    if vs.len() == 0 {
        Seq::empty()
    } else {
        variants_text(reg, vs.drop_last()) + "    "@ + variant_text(reg, vs.last()) + ",\n"@
    }
}

/// The emitted declaration of a custom sum type.
pub open spec fn enum_text(reg: TypeRegistry, t: crate::metadata::Type, vs: Seq<Variant>) -> Seq<
    char,
> {
    derive_line() + "pub enum "@ + t.spec_qualified_name() + " {\n"@ + variants_text(reg, vs)
        + "}\n\n"@
}

/// A custom type's declaration is well-formed: homogeneous field lists
/// whose types all resolve.
pub open spec fn type_decl_valid(reg: TypeRegistry, t: crate::metadata::Type) -> bool {
    match t.def {
        TypeDef::Composite(c) => fields_homogeneous(c.fields@) && fields_resolvable(reg, c.fields@),
        TypeDef::Variant(vs) => forall|i: int|
            0 <= i < vs@.len() ==> fields_homogeneous((#[trigger] vs@[i]).fields@)
                && fields_resolvable(reg, vs@[i].fields@),
        _ => true,
    }
}

/// Renders a sum-type declaration, one alternative per source variant.
pub fn define_enum(t: &crate::metadata::Type, vs: &Vec<Variant>, reg: &TypeRegistry) -> (r: String)
    requires
        forall|i: int|
            0 <= i < vs@.len() ==> fields_homogeneous((#[trigger] vs@[i]).fields@)
                && fields_resolvable(*reg, vs@[i].fields@),
    ensures
        r@ == enum_text(*reg, *t, vs@),
{
    let mut body = String::new();
    let mut i: usize = 0;
    while i < vs.len()
        invariant
            i <= vs.len(),
            forall|j: int|
                0 <= j < vs@.len() ==> fields_homogeneous((#[trigger] vs@[j]).fields@)
                    && fields_resolvable(*reg, vs@[j].fields@),
            body@ == variants_text(*reg, vs@.take(i as int)),
        decreases vs.len() - i,
    {
        body.append("    ");
        let v = &vs[i];
        let text = match v.aggregate_fields() {
            Ok(Fields::Unnamed(tys)) => {
                proof {
                    assert(tys@.map_values(|x: u32| x) =~= fields_tys(v.fields@));
                    assert(tys@ =~= fields_tys(v.fields@));
                }
                match unnamed_variant(v.name.as_str(), &tys, reg) {
                    Ok(s) => s,
                    Err(_) => {
                        proof {
                            let x = choose|x: int|
                                0 <= x < tys@.len() && !resolvable(
                                    *reg,
                                    #[trigger] tys@[x],
                                    reg_fuel(*reg),
                                );
                            assert(tys@[x] == v.fields@[x].ty);
                            assert(false);
                        }
                        String::new()
                    },
                }
            },
            Ok(Fields::Named(named)) => {
                proof {
                    assert(!fields_all_unnamed(v.fields@)) by {
                        assert(v.fields@[0].name is Some);
                    }
                    lemma_named_fields_agree(*reg, named@, v.fields@);
                }
                match named_variant(v.name.as_str(), &named, reg) {
                    Ok(s) => s,
                    Err(_) => {
                        proof {
                            let x = choose|x: int|
                                0 <= x < named@.len() && !resolvable(
                                    *reg,
                                    (#[trigger] named@[x]).1,
                                    reg_fuel(*reg),
                                );
                            assert((named@[x]).0@ == v.fields@[x].name->0@ && named@[x].1
                                == v.fields@[x].ty);
                            assert(false);
                        }
                        String::new()
                    },
                }
            },
            Err(_) => {
                proof {
                    assert(false);
                }
                String::new()
            },
        };
        proof {
            assert(text@ == variant_text(*reg, vs@[i as int]));
        }
        body.append(text.as_str());
        body.append(",\n");
        proof {
            assert(vs@.take(i + 1 as int).drop_last() =~= vs@.take(i as int));
            assert(vs@.take(i + 1 as int).last() == vs@[i as int]);
            assert(body@ =~= variants_text(*reg, vs@.take(i + 1 as int)));
        }
        i = i + 1;
    }
    proof {
        assert(vs@.take(vs@.len() as int) =~= vs@);
    }
    let mut r = String::from_str(
        "#[derive(Debug, Clone, PartialEq, Eq, scale::Encode, scale::Decode)]\n",
    );
    r.append("pub enum ");
    let name = t.qualified_name();
    r.append(name.as_str());
    r.append(" {\n");
    r.append(body.as_str());
    r.append("}\n\n");
    proof {
        assert(r@ =~= enum_text(*reg, *t, vs@));
    }
    r
}

/// `pub Type` entries of an unnamed record, comma-joined.
pub open spec fn pub_tys_text(reg: TypeRegistry, tys: Seq<u32>) -> Seq<char>
    decreases tys.len(),
{
    if tys.len() == 0 {
        Seq::empty()
    } else if tys.len() == 1 {
        "pub "@ + type_text(reg, tys[0], ""@, reg_fuel(reg))
    } else {
        "pub "@ + type_text(reg, tys[0], ""@, reg_fuel(reg)) + ", "@ + pub_tys_text(
            reg,
            tys.skip(1),
        )
    }
}

/// `pub name: Type` lines of a named record.
pub open spec fn pub_named_fields_text(reg: TypeRegistry, fields: Seq<Field>) -> Seq<char>
    decreases fields.len(),
{
    if fields.len() == 0 {
        Seq::empty()
    } else {
        pub_named_fields_text(reg, fields.drop_last()) + "    pub "@ + fields.last().name->0@
            + ": "@ + type_text(reg, fields.last().ty, ""@, reg_fuel(reg)) + ",\n"@
    }
}

/// The emitted declaration of a custom record type: braces and public
/// named fields, or a tuple-like record of public positional fields.
pub open spec fn composite_text(
    reg: TypeRegistry,
    t: crate::metadata::Type,
    c: TypeDefComposite,
) -> Seq<char> {
    if fields_all_unnamed(c.fields@) {
        derive_line() + "pub struct "@ + t.spec_qualified_name() + "("@ + pub_tys_text(
            reg,
            fields_tys(c.fields@),
        ) + ");\n\n"@
    } else {
        derive_line() + "pub struct "@ + t.spec_qualified_name() + " {\n"@ + pub_named_fields_text(
            reg,
            c.fields@,
        ) + "}\n\n"@
    }
}

proof fn lemma_pub_tys_push(reg: TypeRegistry, tys: Seq<u32>, t: u32)
    ensures
        pub_tys_text(reg, tys.push(t)) == if tys.len() == 0 {
            ("pub "@ + type_text(reg, t, ""@, reg_fuel(reg)))
        } else {
            (pub_tys_text(reg, tys) + ", "@ + ("pub "@ + type_text(reg, t, ""@, reg_fuel(reg))))
        },
    decreases tys.len(),
{
    let piece = "pub "@ + type_text(reg, t, ""@, reg_fuel(reg));
    if tys.len() == 0 {
        assert(tys.push(t) =~= seq![t]);
    } else if tys.len() == 1 {
        assert(tys.push(t).skip(1) =~= seq![t]);
        assert(tys.push(t)[0] == tys[0]);
        assert(pub_tys_text(reg, seq![t]) == piece);
        let p0 = "pub "@ + type_text(reg, tys[0], ""@, reg_fuel(reg));
        assert(pub_tys_text(reg, tys.push(t)) == p0 + ", "@ + piece);
        assert(p0 + ", "@ + piece =~= (p0 + ", "@) + piece);
        assert(pub_tys_text(reg, tys) + ", "@ + piece =~= (p0 + ", "@) + piece);
    } else {
        assert(tys.push(t).skip(1) =~= tys.skip(1).push(t));
        assert(tys.push(t)[0] == tys[0]);
        lemma_pub_tys_push(reg, tys.skip(1), t);
        let p0 = "pub "@ + type_text(reg, tys[0], ""@, reg_fuel(reg));
        assert(p0 + ", "@ + (pub_tys_text(reg, tys.skip(1)) + ", "@ + piece) =~= (p0 + ", "@
            + pub_tys_text(reg, tys.skip(1))) + ", "@ + piece);
    }
}

/// Renders a record-type declaration.
pub fn define_composite(
    t: &crate::metadata::Type,
    c: &TypeDefComposite,
    reg: &TypeRegistry,
) -> (r: String)
    requires
        fields_homogeneous(c.fields@),
        fields_resolvable(*reg, c.fields@),
    ensures
        r@ == composite_text(*reg, *t, *c),
{
    let name = t.qualified_name();
    match c.aggregate_fields() {
        Ok(Fields::Unnamed(tys)) => {
            proof {
                assert(tys@.map_values(|x: u32| x) =~= fields_tys(c.fields@));
                assert(tys@ =~= fields_tys(c.fields@));
            }
            let mut r = String::from_str(
                "#[derive(Debug, Clone, PartialEq, Eq, scale::Encode, scale::Decode)]\n",
            );
            r.append("pub struct ");
            r.append(name.as_str());
            r.append("(");
            let mut i: usize = 0;
            let mut body = String::new();
            while i < tys.len()
                invariant
                    i <= tys.len(),
                    tys@ == fields_tys(c.fields@),
                    fields_resolvable(*reg, c.fields@),
                    body@ == pub_tys_text(*reg, tys@.take(i as int)),
                decreases tys.len() - i,
            {
                if i > 0 {
                    body.append(", ");
                }
                body.append("pub ");
                match type_ref(reg, tys[i]) {
                    Ok(s) => {
                        body.append(s.as_str());
                    },
                    Err(_) => {
                        proof {
                            assert(fields_tys(c.fields@)[i as int] == c.fields@[i as int].ty);
                            assert(false);
                        }
                    },
                }
                proof {
                    assert(tys@.take(i + 1 as int) =~= tys@.take(i as int).push(tys@[i as int]));
                    lemma_pub_tys_push(*reg, tys@.take(i as int), tys@[i as int]);
                }
                i = i + 1;
            }
            proof {
                assert(tys@.take(tys@.len() as int) =~= tys@);
            }
            r.append(body.as_str());
            r.append(");\n\n");
            proof {
                assert(r@ =~= composite_text(*reg, *t, *c));
            }
            r
        },
        Ok(Fields::Named(named)) => {
            proof {
                assert(!fields_all_unnamed(c.fields@));
            }
            let mut r = String::from_str(
                "#[derive(Debug, Clone, PartialEq, Eq, scale::Encode, scale::Decode)]\n",
            );
            r.append("pub struct ");
            r.append(name.as_str());
            r.append(" {\n");
            let mut i: usize = 0;
            let mut body = String::new();
            while i < named.len()
                invariant
                    i <= named.len(),
                    named@.len() == c.fields@.len(),
                    forall|j: int|
                        0 <= j < c.fields@.len() ==> (#[trigger] named@[j]).0@
                            == c.fields@[j].name->0@ && named@[j].1 == c.fields@[j].ty,
                    fields_resolvable(*reg, c.fields@),
                    body@ == pub_named_fields_text(*reg, c.fields@.take(i as int)),
                decreases named.len() - i,
            {
                body.append("    pub ");
                body.append(named[i].0.as_str());
                body.append(": ");
                match type_ref(reg, named[i].1) {
                    Ok(s) => {
                        body.append(s.as_str());
                    },
                    Err(_) => {
                        proof {
                            assert(false);
                        }
                    },
                }
                body.append(",\n");
                proof {
                    assert(c.fields@.take(i + 1 as int).drop_last() =~= c.fields@.take(i as int));
                    assert(c.fields@.take(i + 1 as int).last() == c.fields@[i as int]);
                    assert(body@ =~= pub_named_fields_text(*reg, c.fields@.take(i + 1 as int)));
                }
                i = i + 1;
            }
            proof {
                assert(c.fields@.take(c.fields@.len() as int) =~= c.fields@);
            }
            r.append(body.as_str());
            r.append("}\n\n");
            proof {
                assert(r@ =~= composite_text(*reg, *t, *c));
            }
            r
        },
        Err(_) => {
            proof {
                assert(false);
            }
            String::new()
        },
    }
}

/// The emitted declaration of one custom type: a sum type for a variant, a
/// record for a composite, nothing otherwise.
pub open spec fn type_decl_text(reg: TypeRegistry, t: crate::metadata::Type) -> Seq<char> {
    match t.def {
        TypeDef::Variant(vs) => enum_text(reg, t, vs@),
        TypeDef::Composite(c) => composite_text(reg, t, c),
        _ => Seq::empty(),
    }
}

/// Renders the declaration of one custom type.
pub fn define_type(t: &crate::metadata::Type, reg: &TypeRegistry) -> (r: String)
    requires
        type_decl_valid(*reg, *t),
    ensures
        r@ == type_decl_text(*reg, *t),
{
    match &t.def {
        TypeDef::Variant(vs) => define_enum(t, vs, reg),
        TypeDef::Composite(c) => define_composite(t, c, reg),
        _ => String::new(),
    }
}

/// Every field type of an event resolves.
pub open spec fn event_valid(reg: TypeRegistry, e: EventDef) -> bool {
    forall|i: int|
        0 <= i < e.args@.len() ==> resolvable(reg, (#[trigger] e.args@[i]).ty, reg_fuel(reg))
}

/// One emitted event field: its docs, name and type, the type qualified
/// with `super::` because the event enum lives in its own submodule.
pub open spec fn event_field_text(reg: TypeRegistry, f: EventField) -> Seq<char> {
    spec_docs(f.docs@.map_values(|l: String| l@)) + "    "@ + f.label@ + ": "@ + type_text(
        reg,
        f.ty,
        "super"@,
        reg_fuel(reg),
    ) + ",\n"@
}

/// The emitted fields of one event, in declaration order.
pub open spec fn event_fields_text(reg: TypeRegistry, fs: Seq<EventField>) -> Seq<char>
    decreases fs.len(),
{
    if fs.len() == 0 {
        Seq::empty()
    } else {
        event_fields_text(reg, fs.drop_last()) + event_field_text(reg, fs.last())
    }
}

/// One alternative of the generated event enum.
pub open spec fn event_text(reg: TypeRegistry, e: EventDef) -> Seq<char> {
    spec_docs(e.docs@.map_values(|l: String| l@)) + e.label@ + " {\n"@ + event_fields_text(
        reg,
        e.args@,
    ) + "},\n"@
}

/// The alternatives of the generated event enum, in declaration order.
pub open spec fn events_text(reg: TypeRegistry, es: Seq<EventDef>) -> Seq<char>
    decreases es.len(),
{
    if es.len() == 0 {
        Seq::empty()
    } else {
        events_text(reg, es.drop_last()) + event_text(reg, es.last())
    }
}

/// Renders one event as an alternative of the generated event enum.
pub fn define_event(e: &EventDef, reg: &TypeRegistry) -> (r: String)
    requires
        event_valid(*reg, *e),
    ensures
        r@ == event_text(*reg, *e),
{
    let mut r = quote_docs(&e.docs);
    r.append(e.label.as_str());
    r.append(" {\n");
    let mut i: usize = 0;
    while i < e.args.len()
        invariant
            i <= e.args@.len(),
            event_valid(*reg, *e),
            r@ == spec_docs(e.docs@.map_values(|l: String| l@)) + e.label@ + " {\n"@
                + event_fields_text(*reg, e.args@.take(i as int)),
        decreases e.args@.len() - i,
    {
        let f = &e.args[i];
        let fdocs = quote_docs(&f.docs);
        r.append(fdocs.as_str());
        r.append("    ");
        r.append(f.label.as_str());
        r.append(": ");
        match type_ref_prefix(reg, f.ty, "super") {
            Ok(t) => {
                r.append(t.as_str());
            },
            Err(_) => {
                proof {
                    assert(false);
                }
            },
        }
        r.append(",\n");
        proof {
            assert(e.args@.take(i + 1 as int).drop_last() =~= e.args@.take(i as int));
            assert(e.args@.take(i + 1 as int).last() == e.args@[i as int]);
            assert(r@ =~= spec_docs(e.docs@.map_values(|l: String| l@)) + e.label@ + " {\n"@
                + event_fields_text(*reg, e.args@.take(i + 1 as int)));
        }
        i = i + 1;
    }
    proof {
        assert(e.args@.take(e.args@.len() as int) =~= e.args@);
    }
    r.append("},\n");
    proof {
        assert(r@ =~= event_text(*reg, *e));
    }
    r
}

/// Renders all event alternatives.
pub fn define_events(events: &Vec<EventDef>, reg: &TypeRegistry) -> (r: String)
    requires
        forall|i: int| 0 <= i < events@.len() ==> event_valid(*reg, #[trigger] events@[i]),
    ensures
        r@ == events_text(*reg, events@),
{
    let mut r = String::new();
    let mut i: usize = 0;
    while i < events.len()
        invariant
            i <= events@.len(),
            forall|j: int| 0 <= j < events@.len() ==> event_valid(*reg, #[trigger] events@[j]),
            r@ == events_text(*reg, events@.take(i as int)),
        decreases events@.len() - i,
    {
        let text = define_event(&events[i], reg);
        r.append(text.as_str());
        proof {
            assert(events@.take(i + 1 as int).drop_last() =~= events@.take(i as int));
            assert(events@.take(i + 1 as int).last() == events@[i as int]);
        }
        i = i + 1;
    }
    proof {
        assert(events@.take(events@.len() as int) =~= events@);
    }
    r
}

/// Every custom type's declaration in the registry is well-formed.
pub open spec fn registry_decls_valid(reg: TypeRegistry) -> bool {
    forall|i: int|
        0 <= i < reg.types@.len() ==> ((#[trigger] reg.types@[i]).spec_is_custom()
            ==> type_decl_valid(reg, reg.types@[i]))
}

/// The declarations of the first `n` registry entries that are custom, in
/// registry order.
pub open spec fn custom_types_upto(reg: TypeRegistry, n: int) -> Seq<char>
    decreases n,
{
    if n <= 0 {
        Seq::empty()
    } else {
        custom_types_upto(reg, n - 1) + if reg.types@[n - 1].spec_is_custom() {
            type_decl_text(reg, reg.types@[n - 1])
        } else {
            Seq::<char>::empty()
        }
    }
}

/// Renders the declarations of all custom types, in registry order.
pub fn define_custom_types(reg: &TypeRegistry) -> (r: String)
    requires
        registry_decls_valid(*reg),
    ensures
        r@ == custom_types_upto(*reg, reg.types@.len() as int),
{
    let mut r = String::new();
    let mut i: usize = 0;
    while i < reg.types.len()
        invariant
            i <= reg.types@.len(),
            registry_decls_valid(*reg),
            r@ == custom_types_upto(*reg, i as int),
        decreases reg.types@.len() - i,
    {
        let t = &reg.types[i];
        if t.is_custom() {
            let text = define_type(t, reg);
            r.append(text.as_str());
        }
        i = i + 1;
    }
    r
}

/// The constructor functions of the instance, in declaration order.
pub open spec fn ctors_text(reg: TypeRegistry, cs: Seq<Constructor>) -> Seq<char>
    decreases cs.len(),
{
    if cs.len() == 0 {
        Seq::empty()
    } else {
        ctors_text(reg, cs.drop_last()) + ctor_text(reg, cs.last())
    }
}

/// The message wrappers of a list, in declaration order.
pub open spec fn msgs_text(reg: TypeRegistry, ms: Seq<Message>, vis: Seq<char>) -> Seq<char>
    decreases ms.len(),
{
    if ms.len() == 0 {
        Seq::empty()
    } else {
        msgs_text(reg, ms.drop_last(), vis) + msg_text(reg, ms.last(), vis)
    }
}

/// The signatures of a group's messages, as trait items.
pub open spec fn trait_heads_text(reg: TypeRegistry, ms: Seq<Message>) -> Seq<char>
    decreases ms.len(),
{
    if ms.len() == 0 {
        Seq::empty()
    } else {
        trait_heads_text(reg, ms.drop_last()) + "    "@ + msg_head_text(reg, ms.last(), Seq::empty())
            + ";\n"@
    }
}

/// One namespace group: a capability trait with the group's signatures and
/// its implementation on the instance type, so that identically named
/// messages under different namespaces never collide.
pub open spec fn trait_text(reg: TypeRegistry, name: Seq<char>, ms: Seq<Message>) -> Seq<char> {
    "pub trait "@ + name + " {\n"@ + trait_heads_text(reg, ms) + "}\n\nimpl "@ + name
        + " for Instance {\n"@ + msgs_text(reg, ms, Seq::empty()) + "}\n\n"@
}

/// Every message of the list is well-formed.
pub open spec fn msgs_valid(reg: TypeRegistry, ms: Seq<Message>) -> bool {
    forall|i: int| 0 <= i < ms.len() ==> msg_valid(reg, #[trigger] ms[i])
}

/// Renders one namespace group as a trait plus its implementation.
pub fn define_trait(name: &str, messages: &Vec<&Message>, reg: &TypeRegistry) -> (r: String)
    requires
        msgs_valid(*reg, messages@.map_values(|m: &Message| *m)),
    ensures
        r@ == trait_text(*reg, name@, messages@.map_values(|m: &Message| *m)),
{
    let ghost ms = messages@.map_values(|m: &Message| *m);
    let mut heads = String::new();
    let mut i: usize = 0;
    while i < messages.len()
        invariant
            i <= messages@.len(),
            ms == messages@.map_values(|m: &Message| *m),
            msgs_valid(*reg, ms),
            heads@ == trait_heads_text(*reg, ms.take(i as int)),
        decreases messages@.len() - i,
    {
        heads.append("    ");
        proof {
            assert(ms[i as int] == *messages@[i as int]);
        }
        let head = define_message_head(messages[i], "", reg);
        heads.append(head.as_str());
        heads.append(";\n");
        proof {
            assert(ms.take(i + 1 as int).drop_last() =~= ms.take(i as int));
            assert(ms.take(i + 1 as int).last() == ms[i as int]);
            reveal_strlit("");
            assert(""@ =~= Seq::<char>::empty());
            assert(heads@ =~= trait_heads_text(*reg, ms.take(i + 1 as int)));
        }
        i = i + 1;
    }
    let mut impls = String::new();
    let mut i: usize = 0;
    while i < messages.len()
        invariant
            i <= messages@.len(),
            ms == messages@.map_values(|m: &Message| *m),
            msgs_valid(*reg, ms),
            impls@ == msgs_text(*reg, ms.take(i as int), Seq::empty()),
        decreases messages@.len() - i,
    {
        proof {
            assert(ms[i as int] == *messages@[i as int]);
        }
        let text = define_message(messages[i], "", reg);
        impls.append(text.as_str());
        proof {
            assert(ms.take(i + 1 as int).drop_last() =~= ms.take(i as int));
            assert(ms.take(i + 1 as int).last() == ms[i as int]);
            reveal_strlit("");
            assert(""@ =~= Seq::<char>::empty());
            assert(impls@ =~= msgs_text(*reg, ms.take(i + 1 as int), Seq::empty()));
        }
        i = i + 1;
    }
    proof {
        assert(ms.take(ms.len() as int) =~= ms);
    }
    let mut r = String::from_str("pub trait ");
    r.append(name);
    r.append(" {\n");
    r.append(heads.as_str());
    r.append("}\n\nimpl ");
    r.append(name);
    r.append(" for Instance {\n");
    r.append(impls.as_str());
    r.append("}\n\n");
    proof {
        assert(r@ =~= trait_text(*reg, name@, ms));
    }
    r
}

/// Every constructor of the list is well-formed.
pub open spec fn ctors_valid(reg: TypeRegistry, cs: Seq<Constructor>) -> bool {
    forall|i: int| 0 <= i < cs.len() ==> ctor_valid(reg, #[trigger] cs[i])
}

/// The inherent implementation block: all constructor functions and the
/// ungrouped message wrappers, public on the instance type.
pub open spec fn impl_instance_text(
    reg: TypeRegistry,
    cs: Seq<Constructor>,
    top: Seq<Message>,
) -> Seq<char> {
    "impl Instance {\n"@ + ctors_text(reg, cs) + msgs_text(reg, top, "pub"@) + "}\n"@
}

/// Renders the inherent implementation block of the instance type.
pub fn define_impl_instance(
    constructors: &Vec<Constructor>,
    top: &Vec<&Message>,
    reg: &TypeRegistry,
) -> (r: String)
    requires
        ctors_valid(*reg, constructors@),
        msgs_valid(*reg, top@.map_values(|m: &Message| *m)),
    ensures
        r@ == impl_instance_text(*reg, constructors@, top@.map_values(|m: &Message| *m)),
{
    let ghost ms = top@.map_values(|m: &Message| *m);
    let mut r = String::from_str("impl Instance {\n");
    let mut i: usize = 0;
    while i < constructors.len()
        invariant
            i <= constructors@.len(),
            ctors_valid(*reg, constructors@),
            r@ == "impl Instance {\n"@ + ctors_text(*reg, constructors@.take(i as int)),
        decreases constructors@.len() - i,
    {
        let text = define_constructor(&constructors[i], reg);
        r.append(text.as_str());
        proof {
            assert(constructors@.take(i + 1 as int).drop_last() =~= constructors@.take(i as int));
            assert(constructors@.take(i + 1 as int).last() == constructors@[i as int]);
            assert(r@ =~= "impl Instance {\n"@ + ctors_text(
                *reg,
                constructors@.take(i + 1 as int),
            ));
        }
        i = i + 1;
    }
    proof {
        assert(constructors@.take(constructors@.len() as int) =~= constructors@);
    }
    let mut i: usize = 0;
    while i < top.len()
        invariant
            i <= top@.len(),
            ms == top@.map_values(|m: &Message| *m),
            msgs_valid(*reg, ms),
            r@ == "impl Instance {\n"@ + ctors_text(*reg, constructors@) + msgs_text(
                *reg,
                ms.take(i as int),
                "pub"@,
            ),
        decreases top@.len() - i,
    {
        proof {
            assert(ms[i as int] == *top@[i as int]);
        }
        let text = define_message(top[i], "pub", reg);
        r.append(text.as_str());
        proof {
            assert(ms.take(i + 1 as int).drop_last() =~= ms.take(i as int));
            assert(ms.take(i + 1 as int).last() == ms[i as int]);
            assert(r@ =~= "impl Instance {\n"@ + ctors_text(*reg, constructors@) + msgs_text(
                *reg,
                ms.take(i + 1 as int),
                "pub"@,
            ));
        }
        i = i + 1;
    }
    proof {
        assert(ms.take(ms.len() as int) =~= ms);
    }
    r.append("}\n");
    proof {
        assert(r@ =~= impl_instance_text(*reg, constructors@, ms));
    }
    r
}

/// The upload helper: present only when a contract binary path was given.
/// It wraps caller-supplied code bytes and the expected code identifier in
/// an upload request.
pub open spec fn upload_text(wasm_path: Option<Seq<char>>) -> Seq<char> {
    match wasm_path {
        Option::None => Seq::empty(),
        Option::Some(p) => "#[allow(dead_code)]\npub const WASM_PATH: &str = \""@ + escaped(p)
            + "\";\n\n#[allow(dead_code)]\npub fn upload(wasm: Vec<u8>) -> ink_wrapper_types::UploadCall {\n    ink_wrapper_types::UploadCall::new(wasm, CODE_HASH)\n}\n\n"@,
    }
}

/// Renders the upload helper, or nothing without a binary path.
pub fn define_upload(wasm_path: &Option<String>) -> (r: String)
    ensures
        r@ == upload_text(match *wasm_path {
            Option::Some(ref p) => Option::Some(p@),
            Option::None => Option::None,
        }),
{
    match wasm_path {
        None => String::new(),
        Some(p) => {
            let mut r = String::from_str("#[allow(dead_code)]\npub const WASM_PATH: &str = \"");
            let esc = escape_text(p.as_str());
            r.append(esc.as_str());
            r.append(
                "\";\n\n#[allow(dead_code)]\npub fn upload(wasm: Vec<u8>) -> ink_wrapper_types::UploadCall {\n    ink_wrapper_types::UploadCall::new(wasm, CODE_HASH)\n}\n\n",
            );
            r
        },
    }
}

/// The first unresolvable argument's error.
pub open spec fn args_err(reg: TypeRegistry, args: Seq<Arg>) -> GenError
    recommends
        !args_resolvable(reg, args),
    decreases args.len(),
{
    if args.len() == 0 {
        GenError::MixedFields
    } else if !resolvable(reg, args[0].ty, reg_fuel(reg)) {
        crate::typeref::resolve_err(reg, args[0].ty, reg_fuel(reg))
    } else {
        args_err(reg, args.skip(1))
    }
}

proof fn lemma_args_err_at(reg: TypeRegistry, args: Seq<Arg>, i: int)
    requires
        0 <= i < args.len(),
        forall|j: int| 0 <= j < i ==> resolvable(reg, (#[trigger] args[j]).ty, reg_fuel(reg)),
        !resolvable(reg, args[i].ty, reg_fuel(reg)),
    ensures
        !args_resolvable(reg, args),
        args_err(reg, args) == crate::typeref::resolve_err(reg, args[i].ty, reg_fuel(reg)),
    decreases i,
{
    if i > 0 {
        assert forall|j: int| 0 <= j < i - 1 implies resolvable(
            reg,
            (#[trigger] args.skip(1)[j]).ty,
            reg_fuel(reg),
        ) by {
            assert(args.skip(1)[j] == args[j + 1]);
        }
        assert(args.skip(1)[i - 1] == args[i]);
        lemma_args_err_at(reg, args.skip(1), i - 1);
    }
}

/// Checks that every argument type resolves.
fn check_args(args: &Vec<Arg>, reg: &TypeRegistry) -> (r: Result<(), GenError>)
    ensures
        match r {
            Ok(()) => args_resolvable(*reg, args@),
            Err(e) => !args_resolvable(*reg, args@) && e == args_err(*reg, args@),
        },
{
    let mut i: usize = 0;
    while i < args.len()
        invariant
            i <= args@.len(),
            forall|j: int| 0 <= j < i ==> resolvable(*reg, (#[trigger] args@[j]).ty, reg_fuel(*reg)),
        decreases args@.len() - i,
    {
        match type_ref(reg, args[i].ty) {
            Ok(_) => {},
            Err(e) => {
                proof {
                    lemma_args_err_at(*reg, args@, i as int);
                }
                return Err(e);
            },
        }
        i = i + 1;
    }
    Ok(())
}

/// The code identifier decodes from hex to exactly 32 bytes.
pub open spec fn hash_valid(m: ContractMetadata) -> bool {
    &&& valid_hex(strip_hex_prefix(m.code_hash@))
    &&& hex_bytes(strip_hex_prefix(m.code_hash@)).len() == 32
}

/// The error of an ill-formed constructor: a bad selector first, then the
/// first unresolvable argument.
pub open spec fn ctor_err(reg: TypeRegistry, c: Constructor) -> GenError
    recommends
        !ctor_valid(reg, c),
{
    if !valid_hex(strip_hex_prefix(c.selector@)) {
        GenError::InvalidHex
    } else {
        args_err(reg, c.args@)
    }
}

/// Checks one constructor.
fn check_ctor(c: &Constructor, reg: &TypeRegistry) -> (r: Result<(), GenError>)
    ensures
        match r {
            Ok(()) => ctor_valid(*reg, *c),
            Err(e) => !ctor_valid(*reg, *c) && e == ctor_err(*reg, *c),
        },
{
    match hex_to_bytes(c.selector.as_str()) {
        Ok(_) => {},
        Err(e) => {
            return Err(e);
        },
    }
    match check_args(&c.args, reg) {
        Ok(()) => Ok(()),
        Err(e) => Err(e),
    }
}

/// The error of an ill-formed message: a nested label first, then a bad
/// selector, then the arguments, then the return type.
pub open spec fn msg_err(reg: TypeRegistry, m: Message) -> GenError
    recommends
        !msg_valid(reg, m),
{
    if !crate::classify::valid_label(m.label@) {
        GenError::NestedNamespace
    } else if !valid_hex(strip_hex_prefix(m.selector@)) {
        GenError::InvalidHex
    } else if !args_resolvable(reg, m.args@) {
        args_err(reg, m.args@)
    } else {
        crate::typeref::resolve_err(reg, m.return_type, reg_fuel(reg))
    }
}

/// Checks one message.
fn check_msg(m: &Message, reg: &TypeRegistry) -> (r: Result<(), GenError>)
    ensures
        match r {
            Ok(()) => msg_valid(*reg, *m),
            Err(e) => !msg_valid(*reg, *m) && e == msg_err(*reg, *m),
        },
{
    match crate::classify::label_trait_name(m.label.as_str()) {
        Ok(_) => {},
        Err(e) => {
            return Err(e);
        },
    }
    match hex_to_bytes(m.selector.as_str()) {
        Ok(_) => {},
        Err(e) => {
            return Err(e);
        },
    }
    match check_args(&m.args, reg) {
        Ok(()) => {},
        Err(e) => {
            return Err(e);
        },
    }
    match type_ref(reg, m.return_type) {
        Ok(_) => Ok(()),
        Err(e) => Err(e),
    }
}

/// The first unresolvable field type's error.
pub open spec fn field_tys_err(reg: TypeRegistry, fields: Seq<Field>) -> GenError
    recommends
        !fields_resolvable(reg, fields),
    decreases fields.len(),
{
    if fields.len() == 0 {
        GenError::MixedFields
    } else if !resolvable(reg, fields[0].ty, reg_fuel(reg)) {
        crate::typeref::resolve_err(reg, fields[0].ty, reg_fuel(reg))
    } else {
        field_tys_err(reg, fields.skip(1))
    }
}

proof fn lemma_field_tys_err_at(reg: TypeRegistry, fields: Seq<Field>, i: int)
    requires
        0 <= i < fields.len(),
        forall|j: int| 0 <= j < i ==> resolvable(reg, (#[trigger] fields[j]).ty, reg_fuel(reg)),
        !resolvable(reg, fields[i].ty, reg_fuel(reg)),
    ensures
        !fields_resolvable(reg, fields),
        field_tys_err(reg, fields) == crate::typeref::resolve_err(
            reg,
            fields[i].ty,
            reg_fuel(reg),
        ),
    decreases i,
{
    if i > 0 {
        assert forall|j: int| 0 <= j < i - 1 implies resolvable(
            reg,
            (#[trigger] fields.skip(1)[j]).ty,
            reg_fuel(reg),
        ) by {
            assert(fields.skip(1)[j] == fields[j + 1]);
        }
        assert(fields.skip(1)[i - 1] == fields[i]);
        lemma_field_tys_err_at(reg, fields.skip(1), i - 1);
    }
}

/// The error of an ill-formed field list: a mix of named and unnamed
/// fields first, then the first unresolvable field type.
pub open spec fn fields_err(reg: TypeRegistry, fields: Seq<Field>) -> GenError {
    if !fields_homogeneous(fields) {
        GenError::MixedFields
    } else {
        field_tys_err(reg, fields)
    }
}

/// Checks one field list: homogeneous, every type resolvable.
fn check_fields(fields: &Vec<Field>, reg: &TypeRegistry) -> (r: Result<(), GenError>)
    ensures
        match r {
            Ok(()) => fields_homogeneous(fields@) && fields_resolvable(*reg, fields@),
            Err(e) => !(fields_homogeneous(fields@) && fields_resolvable(*reg, fields@)) && e
                == fields_err(*reg, fields@),
        },
{
    let mut all_named = true;
    let mut all_unnamed = true;
    let mut i: usize = 0;
    while i < fields.len()
        invariant
            i <= fields@.len(),
            all_named == forall|j: int| 0 <= j < i ==> (#[trigger] fields@[j].name) is Some,
            all_unnamed == forall|j: int| 0 <= j < i ==> (#[trigger] fields@[j].name) is None,
        decreases fields@.len() - i,
    {
        match &fields[i].name {
            Some(_) => {
                all_unnamed = false;
            },
            None => {
                all_named = false;
            },
        }
        i = i + 1;
    }
    if !all_named && !all_unnamed {
        return Err(GenError::MixedFields);
    }
    let mut i: usize = 0;
    while i < fields.len()
        invariant
            i <= fields@.len(),
            fields_homogeneous(fields@),
            forall|j: int|
                0 <= j < i ==> resolvable(*reg, (#[trigger] fields@[j]).ty, reg_fuel(*reg)),
        decreases fields@.len() - i,
    {
        match type_ref(reg, fields[i].ty) {
            Ok(_) => {},
            Err(e) => {
                proof {
                    lemma_field_tys_err_at(*reg, fields@, i as int);
                }
                return Err(e);
            },
        }
        i = i + 1;
    }
    Ok(())
}

/// The first ill-formed alternative's error.
pub open spec fn variants_err(reg: TypeRegistry, vs: Seq<Variant>) -> GenError
    decreases vs.len(),
{
    if vs.len() == 0 {
        GenError::MixedFields
    } else if !(fields_homogeneous(vs[0].fields@) && fields_resolvable(reg, vs[0].fields@)) {
        fields_err(reg, vs[0].fields@)
    } else {
        variants_err(reg, vs.skip(1))
    }
}

proof fn lemma_variants_err_at(reg: TypeRegistry, vs: Seq<Variant>, i: int)
    requires
        0 <= i < vs.len(),
        forall|j: int|
            0 <= j < i ==> fields_homogeneous((#[trigger] vs[j]).fields@) && fields_resolvable(
                reg,
                vs[j].fields@,
            ),
        !(fields_homogeneous(vs[i].fields@) && fields_resolvable(reg, vs[i].fields@)),
    ensures
        variants_err(reg, vs) == fields_err(reg, vs[i].fields@),
    decreases i,
{
    if i > 0 {
        assert forall|j: int| 0 <= j < i - 1 implies fields_homogeneous(
            (#[trigger] vs.skip(1)[j]).fields@,
        ) && fields_resolvable(reg, vs.skip(1)[j].fields@) by {
            assert(vs.skip(1)[j] == vs[j + 1]);
        }
        assert(vs.skip(1)[i - 1] == vs[i]);
        lemma_variants_err_at(reg, vs.skip(1), i - 1);
    }
}

/// The error of an ill-formed custom declaration.
pub open spec fn type_err(reg: TypeRegistry, t: crate::metadata::Type) -> GenError
    recommends
        !type_decl_valid(reg, t),
{
    match t.def {
        TypeDef::Composite(c) => fields_err(reg, c.fields@),
        TypeDef::Variant(vs) => variants_err(reg, vs@),
        _ => GenError::MixedFields,
    }
}

/// Checks one custom type's declaration.
#[verifier::loop_isolation(false)]
fn check_type(t: &crate::metadata::Type, reg: &TypeRegistry) -> (r: Result<(), GenError>)
    ensures
        match r {
            Ok(()) => type_decl_valid(*reg, *t),
            Err(e) => !type_decl_valid(*reg, *t) && e == type_err(*reg, *t),
        },
{
    match &t.def {
        TypeDef::Composite(c) => check_fields(&c.fields, reg),
        TypeDef::Variant(vs) => {
            let mut i: usize = 0;
            while i < vs.len()
                invariant
                    i <= vs@.len(),
                    forall|j: int|
                        0 <= j < i ==> fields_homogeneous((#[trigger] vs@[j]).fields@)
                            && fields_resolvable(*reg, vs@[j].fields@),
                decreases vs@.len() - i,
            {
                match check_fields(&vs[i].fields, reg) {
                    Ok(()) => {},
                    Err(e) => {
                        proof {
                            lemma_variants_err_at(*reg, vs@, i as int);
                            assert(!type_decl_valid(*reg, *t)) by {
                                if type_decl_valid(*reg, *t) {
                                    assert(fields_homogeneous(vs@[i as int].fields@)
                                        && fields_resolvable(*reg, vs@[i as int].fields@));
                                }
                            }
                            assert(e == type_err(*reg, *t));
                        }
                        return Err(e);
                    },
                }
                i = i + 1;
            }
            Ok(())
        },
        _ => Ok(()),
    }
}

/// The first ill-formed custom declaration's error, scanning the registry
/// from entry `i` on.
pub open spec fn registry_err_from(reg: TypeRegistry, i: int) -> GenError
    decreases reg.types@.len() - i,
{
    if i < 0 || i >= reg.types@.len() {
        GenError::MixedFields
    } else if reg.types@[i].spec_is_custom() && !type_decl_valid(reg, reg.types@[i]) {
        type_err(reg, reg.types@[i])
    } else {
        registry_err_from(reg, i + 1)
    }
}

proof fn lemma_registry_err_at(reg: TypeRegistry, k: int, i: int)
    requires
        0 <= k <= i < reg.types@.len(),
        forall|j: int|
            k <= j < i ==> ((#[trigger] reg.types@[j]).spec_is_custom() ==> type_decl_valid(
                reg,
                reg.types@[j],
            )),
        reg.types@[i].spec_is_custom(),
        !type_decl_valid(reg, reg.types@[i]),
    ensures
        registry_err_from(reg, k) == type_err(reg, reg.types@[i]),
    decreases i - k,
{
    if k < i {
        lemma_registry_err_at(reg, k + 1, i);
    }
}

/// Checks every custom type's declaration in the registry.
fn check_registry(reg: &TypeRegistry) -> (r: Result<(), GenError>)
    ensures
        match r {
            Ok(()) => registry_decls_valid(*reg),
            Err(e) => !registry_decls_valid(*reg) && e == registry_err_from(*reg, 0),
        },
{
    let mut i: usize = 0;
    while i < reg.types.len()
        invariant
            i <= reg.types@.len(),
            forall|j: int|
                0 <= j < i ==> ((#[trigger] reg.types@[j]).spec_is_custom() ==> type_decl_valid(
                    *reg,
                    reg.types@[j],
                )),
        decreases reg.types@.len() - i,
    {
        let t = &reg.types[i];
        if t.is_custom() {
            match check_type(t, reg) {
                Ok(()) => {},
                Err(e) => {
                    proof {
                        lemma_registry_err_at(*reg, 0, i as int);
                    }
                    return Err(e);
                },
            }
        }
        i = i + 1;
    }
    Ok(())
}

/// The first unresolvable event field's error.
pub open spec fn event_err(reg: TypeRegistry, fs: Seq<EventField>) -> GenError
    decreases fs.len(),
{
    if fs.len() == 0 {
        GenError::MixedFields
    } else if !resolvable(reg, fs[0].ty, reg_fuel(reg)) {
        crate::typeref::resolve_err(reg, fs[0].ty, reg_fuel(reg))
    } else {
        event_err(reg, fs.skip(1))
    }
}

proof fn lemma_event_err_at(reg: TypeRegistry, fs: Seq<EventField>, i: int)
    requires
        0 <= i < fs.len(),
        forall|j: int| 0 <= j < i ==> resolvable(reg, (#[trigger] fs[j]).ty, reg_fuel(reg)),
        !resolvable(reg, fs[i].ty, reg_fuel(reg)),
    ensures
        event_err(reg, fs) == crate::typeref::resolve_err(reg, fs[i].ty, reg_fuel(reg)),
    decreases i,
{
    if i > 0 {
        assert forall|j: int| 0 <= j < i - 1 implies resolvable(
            reg,
            (#[trigger] fs.skip(1)[j]).ty,
            reg_fuel(reg),
        ) by {
            assert(fs.skip(1)[j] == fs[j + 1]);
        }
        assert(fs.skip(1)[i - 1] == fs[i]);
        lemma_event_err_at(reg, fs.skip(1), i - 1);
    }
}

/// Checks one event.
fn check_event(e: &EventDef, reg: &TypeRegistry) -> (r: Result<(), GenError>)
    ensures
        match r {
            Ok(()) => event_valid(*reg, *e),
            Err(err) => !event_valid(*reg, *e) && err == event_err(*reg, e.args@),
        },
{
    let mut i: usize = 0;
    while i < e.args.len()
        invariant
            i <= e.args@.len(),
            forall|j: int|
                0 <= j < i ==> resolvable(*reg, (#[trigger] e.args@[j]).ty, reg_fuel(*reg)),
        decreases e.args@.len() - i,
    {
        match type_ref(reg, e.args[i].ty) {
            Ok(_) => {},
            Err(err) => {
                proof {
                    lemma_event_err_at(*reg, e.args@, i as int);
                }
                return Err(err);
            },
        }
        i = i + 1;
    }
    Ok(())
}

/// Every event of the list is well-formed.
pub open spec fn events_valid(reg: TypeRegistry, es: Seq<EventDef>) -> bool {
    forall|i: int| 0 <= i < es.len() ==> event_valid(reg, #[trigger] es[i])
}

/// A well-formed metadata document: the code identifier decodes to 32
/// bytes, every custom declaration is homogeneous with resolvable field
/// types, and every entry point and event resolves with a valid label.
pub open spec fn spec_metadata_valid(m: ContractMetadata) -> bool {
    &&& hash_valid(m)
    &&& registry_decls_valid(m.registry)
    &&& ctors_valid(m.registry, m.constructors@)
    &&& msgs_valid(m.registry, m.messages@)
    &&& events_valid(m.registry, m.events@)
}

/// The first ill-formed constructor's error.
pub open spec fn ctors_err(reg: TypeRegistry, cs: Seq<Constructor>) -> GenError
    decreases cs.len(),
{
    if cs.len() == 0 {
        GenError::MixedFields
    } else if !ctor_valid(reg, cs[0]) {
        ctor_err(reg, cs[0])
    } else {
        ctors_err(reg, cs.skip(1))
    }
}

proof fn lemma_ctors_err_at(reg: TypeRegistry, cs: Seq<Constructor>, i: int)
    requires
        0 <= i < cs.len(),
        forall|j: int| 0 <= j < i ==> ctor_valid(reg, #[trigger] cs[j]),
        !ctor_valid(reg, cs[i]),
    ensures
        ctors_err(reg, cs) == ctor_err(reg, cs[i]),
    decreases i,
{
    if i > 0 {
        assert forall|j: int| 0 <= j < i - 1 implies ctor_valid(reg, #[trigger] cs.skip(1)[j]) by {
            assert(cs.skip(1)[j] == cs[j + 1]);
        }
        assert(cs.skip(1)[i - 1] == cs[i]);
        lemma_ctors_err_at(reg, cs.skip(1), i - 1);
    }
}

/// The first ill-formed message's error.
pub open spec fn msgs_err(reg: TypeRegistry, ms: Seq<Message>) -> GenError
    decreases ms.len(),
{
    if ms.len() == 0 {
        GenError::MixedFields
    } else if !msg_valid(reg, ms[0]) {
        msg_err(reg, ms[0])
    } else {
        msgs_err(reg, ms.skip(1))
    }
}

proof fn lemma_msgs_err_at(reg: TypeRegistry, ms: Seq<Message>, i: int)
    requires
        0 <= i < ms.len(),
        forall|j: int| 0 <= j < i ==> msg_valid(reg, #[trigger] ms[j]),
        !msg_valid(reg, ms[i]),
    ensures
        msgs_err(reg, ms) == msg_err(reg, ms[i]),
    decreases i,
{
    if i > 0 {
        assert forall|j: int| 0 <= j < i - 1 implies msg_valid(reg, #[trigger] ms.skip(1)[j]) by {
            assert(ms.skip(1)[j] == ms[j + 1]);
        }
        assert(ms.skip(1)[i - 1] == ms[i]);
        lemma_msgs_err_at(reg, ms.skip(1), i - 1);
    }
}

/// The first ill-formed event's error.
pub open spec fn events_err(reg: TypeRegistry, es: Seq<EventDef>) -> GenError
    decreases es.len(),
{
    if es.len() == 0 {
        GenError::MixedFields
    } else if !event_valid(reg, es[0]) {
        event_err(reg, es[0].args@)
    } else {
        events_err(reg, es.skip(1))
    }
}

proof fn lemma_events_err_at(reg: TypeRegistry, es: Seq<EventDef>, i: int)
    requires
        0 <= i < es.len(),
        forall|j: int| 0 <= j < i ==> event_valid(reg, #[trigger] es[j]),
        !event_valid(reg, es[i]),
    ensures
        events_err(reg, es) == event_err(reg, es[i].args@),
    decreases i,
{
    if i > 0 {
        assert forall|j: int| 0 <= j < i - 1 implies event_valid(reg, #[trigger] es.skip(1)[j]) by {
            assert(es.skip(1)[j] == es[j + 1]);
        }
        assert(es.skip(1)[i - 1] == es[i]);
        lemma_events_err_at(reg, es.skip(1), i - 1);
    }
}

/// The error a malformed document is rejected with: the code identifier,
/// the registry declarations, the constructors, the messages and the
/// events are examined in that order.
pub open spec fn spec_validate_err(m: ContractMetadata) -> GenError
    recommends
        !spec_metadata_valid(m),
{
    if !hash_valid(m) {
        GenError::InvalidHex
    } else if !registry_decls_valid(m.registry) {
        registry_err_from(m.registry, 0)
    } else if !ctors_valid(m.registry, m.constructors@) {
        ctors_err(m.registry, m.constructors@)
    } else if !msgs_valid(m.registry, m.messages@) {
        msgs_err(m.registry, m.messages@)
    } else {
        events_err(m.registry, m.events@)
    }
}

/// Checks the whole document, failing fast on the first structural
/// inconsistency.
#[verifier::loop_isolation(false)]
pub fn validate_metadata(m: &ContractMetadata) -> (r: Result<(), GenError>)
    ensures
        match r {
            Ok(()) => spec_metadata_valid(*m),
            Err(e) => !spec_metadata_valid(*m) && e == spec_validate_err(*m),
        },
{
    match hex_to_bytes(m.code_hash.as_str()) {
        Ok(v) => {
            if v.len() != 32 {
                return Err(GenError::InvalidHex);
            }
        },
        Err(e) => {
            return Err(e);
        },
    }
    match check_registry(&m.registry) {
        Ok(()) => {},
        Err(e) => {
            return Err(e);
        },
    }
    let mut i: usize = 0;
    while i < m.constructors.len()
        invariant
            i <= m.constructors@.len(),
            forall|j: int| 0 <= j < i ==> ctor_valid(m.registry, #[trigger] m.constructors@[j]),
        decreases m.constructors@.len() - i,
    {
        match check_ctor(&m.constructors[i], &m.registry) {
            Ok(()) => {},
            Err(e) => {
                proof {
                    lemma_ctors_err_at(m.registry, m.constructors@, i as int);
                    assert(!ctors_valid(m.registry, m.constructors@)) by {
                        assert(!ctor_valid(m.registry, m.constructors@[i as int]));
                    }
                }
                return Err(e);
            },
        }
        i = i + 1;
    }
    let mut i: usize = 0;
    while i < m.messages.len()
        invariant
            i <= m.messages@.len(),
            forall|j: int| 0 <= j < i ==> msg_valid(m.registry, #[trigger] m.messages@[j]),
        decreases m.messages@.len() - i,
    {
        match check_msg(&m.messages[i], &m.registry) {
            Ok(()) => {},
            Err(e) => {
                proof {
                    lemma_msgs_err_at(m.registry, m.messages@, i as int);
                    assert(!msgs_valid(m.registry, m.messages@)) by {
                        assert(!msg_valid(m.registry, m.messages@[i as int]));
                    }
                }
                return Err(e);
            },
        }
        i = i + 1;
    }
    let mut i: usize = 0;
    while i < m.events.len()
        invariant
            i <= m.events@.len(),
            forall|j: int| 0 <= j < i ==> event_valid(m.registry, #[trigger] m.events@[j]),
        decreases m.events@.len() - i,
    {
        match check_event(&m.events[i], &m.registry) {
            Ok(()) => {},
            Err(e) => {
                proof {
                    lemma_events_err_at(m.registry, m.events@, i as int);
                    assert(!events_valid(m.registry, m.events@)) by {
                        assert(!event_valid(m.registry, m.events@[i as int]));
                    }
                }
                return Err(e);
            },
        }
        i = i + 1;
    }
    Ok(())
}

/// The fixed heart of every generated module: the instance handle around
/// one account identifier, its conversions, and its event binding.
pub open spec fn instance_block() -> Seq<char> {
    "#[derive(Debug, Clone, Copy)]\npub struct Instance {\n    account_id: ink_primitives::AccountId,\n}\n\nimpl From<ink_primitives::AccountId> for Instance {\n    fn from(account_id: ink_primitives::AccountId) -> Self {\n        Self { account_id }\n    }\n}\n\nimpl From<Instance> for ink_primitives::AccountId {\n    fn from(instance: Instance) -> Self {\n        instance.account_id\n    }\n}\n\nimpl ink_wrapper_types::EventSource for Instance {\n    type Event = event::Event;\n}\n\n"@
}

/// Inherent messages of a valid list are valid.
proof fn lemma_inherents_valid(reg: TypeRegistry, ms: Seq<Message>)
    requires
        msgs_valid(reg, ms),
    ensures
        msgs_valid(reg, crate::classify::inherents_of(ms)),
    decreases ms.len(),
{
    if ms.len() > 0 {
        assert forall|j: int| 0 <= j < ms.drop_last().len() implies msg_valid(
            reg,
            #[trigger] ms.drop_last()[j],
        ) by {
            assert(ms.drop_last()[j] == ms[j]);
        }
        lemma_inherents_valid(reg, ms.drop_last());
        let p = crate::classify::inherents_of(ms.drop_last());
        if crate::classify::is_inherent(ms.last()) {
            assert forall|j: int| 0 <= j < p.push(ms.last()).len() implies msg_valid(
                reg,
                #[trigger] p.push(ms.last())[j],
            ) by {
                if j < p.len() {
                    assert(p.push(ms.last())[j] == p[j]);
                    assert(msg_valid(reg, p[j]));
                } else {
                    assert(p.push(ms.last())[j] == ms.last());
                    assert(msg_valid(reg, ms[ms.len() - 1]));
                }
            }
        }
    }
}

/// The messages of any namespace group of a valid list are valid.
proof fn lemma_in_group_valid(reg: TypeRegistry, ms: Seq<Message>, name: Seq<char>)
    requires
        msgs_valid(reg, ms),
    ensures
        msgs_valid(reg, crate::classify::in_group(ms, name)),
    decreases ms.len(),
{
    if ms.len() > 0 {
        assert forall|j: int| 0 <= j < ms.drop_last().len() implies msg_valid(
            reg,
            #[trigger] ms.drop_last()[j],
        ) by {
            assert(ms.drop_last()[j] == ms[j]);
        }
        lemma_in_group_valid(reg, ms.drop_last(), name);
        let p = crate::classify::in_group(ms.drop_last(), name);
        if crate::classify::spec_trait_prefix(ms.last().label@) == Option::Some(name) {
            assert forall|j: int| 0 <= j < p.push(ms.last()).len() implies msg_valid(
                reg,
                #[trigger] p.push(ms.last())[j],
            ) by {
                if j < p.len() {
                    assert(p.push(ms.last())[j] == p[j]);
                    assert(msg_valid(reg, p[j]));
                } else {
                    assert(p.push(ms.last())[j] == ms.last());
                    assert(msg_valid(reg, ms[ms.len() - 1]));
                }
            }
        }
    }
}

/// The namespace groups of the message list, each as a trait plus its
/// implementation, in order of first appearance of the prefixes.
pub open spec fn traits_text_for(reg: TypeRegistry, ms: Seq<Message>, names: Seq<Seq<char>>) -> Seq<
    char,
>
    decreases names.len(),
{
    if names.len() == 0 {
        Seq::empty()
    } else {
        traits_text_for(reg, ms, names.drop_last()) + trait_text(
            reg,
            names.last(),
            crate::classify::in_group(ms, names.last()),
        )
    }
}

/// All namespace groups of the message list.
pub open spec fn traits_text(reg: TypeRegistry, ms: Seq<Message>) -> Seq<char> {
    traits_text_for(reg, ms, crate::classify::prefix_list(ms))
}

/// The view of an optional path.
pub open spec fn opt_str_view(o: Option<String>) -> Option<Seq<char>> {
    match o {
        Option::Some(p) => Option::Some(p@),
        Option::None => Option::None,
    }
}

/// The whole generated module for a well-formed document: the code
/// identifier constant, the custom type declarations in registry order, the
/// event enum in its own submodule, the instance handle, one trait and
/// implementation per namespace group, the optional upload helper, and the
/// inherent implementation with all constructors and ungrouped messages.
pub open spec fn generated_text(m: ContractMetadata, wasm_path: Option<Seq<char>>) -> Seq<char> {
    "use scale::Encode as _;\n\n#[allow(dead_code)]\npub const CODE_HASH: [u8; 32] = ["@
        + bytes_dec_list(hex_bytes(strip_hex_prefix(m.code_hash@))) + "];\n\n"@
        + custom_types_upto(m.registry, m.registry.types@.len() as int)
        + "pub mod event {\n#[allow(dead_code, clippy::large_enum_variant)]\n#[derive(Debug, Clone, PartialEq, Eq, scale::Encode, scale::Decode)]\npub enum Event {\n"@
        + events_text(m.registry, m.events@) + "}\n}\n\n"@ + instance_block() + traits_text(
        m.registry,
        m.messages@,
    ) + upload_text(wasm_path) + impl_instance_text(
        m.registry,
        m.constructors@,
        crate::classify::inherents_of(m.messages@),
    )
}

/// Generates the whole wrapper module for the contract described by the
/// metadata, or rejects a malformed document with its first inconsistency.
#[verifier::loop_isolation(false)]
pub fn generate(m: &ContractMetadata, wasm_path: &Option<String>) -> (r: Result<String, GenError>)
    ensures
        match r {
            Ok(s) => spec_metadata_valid(*m) && s@ == generated_text(*m, opt_str_view(*wasm_path)),
            Err(e) => !spec_metadata_valid(*m) && e == spec_validate_err(*m),
        },
{
    match validate_metadata(m) {
        Ok(()) => {},
        Err(e) => {
            return Err(e);
        },
    }
    let (top, groups) = match crate::classify::group_messages(&m.messages) {
        Ok(parts) => parts,
        Err(_) => {
            proof {
                let j = choose|j: int|
                    0 <= j < m.messages@.len() && !crate::classify::valid_label(
                        (#[trigger] m.messages@[j]).label@,
                    );
                assert(msg_valid(m.registry, m.messages@[j]));
                assert(false);
            }
            return Err(GenError::NestedNamespace);
        },
    };
    let mut r = String::from_str(
        "use scale::Encode as _;\n\n#[allow(dead_code)]\npub const CODE_HASH: [u8; 32] = [",
    );
    let hash = match hex_to_bytes(m.code_hash.as_str()) {
        Ok(v) => v,
        Err(_) => Vec::new(),
    };
    let hash_list = render_bytes(&hash);
    r.append(hash_list.as_str());
    r.append("];\n\n");
    let customs = define_custom_types(&m.registry);
    r.append(customs.as_str());
    r.append(
        "pub mod event {\n#[allow(dead_code, clippy::large_enum_variant)]\n#[derive(Debug, Clone, PartialEq, Eq, scale::Encode, scale::Decode)]\npub enum Event {\n",
    );
    let events = define_events(&m.events, &m.registry);
    r.append(events.as_str());
    r.append("}\n}\n\n");
    r.append(
        "#[derive(Debug, Clone, Copy)]\npub struct Instance {\n    account_id: ink_primitives::AccountId,\n}\n\nimpl From<ink_primitives::AccountId> for Instance {\n    fn from(account_id: ink_primitives::AccountId) -> Self {\n        Self { account_id }\n    }\n}\n\nimpl From<Instance> for ink_primitives::AccountId {\n    fn from(instance: Instance) -> Self {\n        instance.account_id\n    }\n}\n\nimpl ink_wrapper_types::EventSource for Instance {\n    type Event = event::Event;\n}\n\n",
    );
    let ghost ms = m.messages@;
    let ghost names = crate::classify::prefix_list(ms);
    let mut k: usize = 0;
    let mut traits = String::new();
    while k < groups.len()
        invariant
            k <= groups@.len(),
            traits@ == traits_text_for(m.registry, ms, names.take(k as int)),
        decreases groups@.len() - k,
    {
        let g = &groups[k];
        proof {
            assert(groups@.map_values(|gg: crate::classify::MessageGroup| gg.name@)[k as int]
                == g.name@);
            assert(names[k as int] == g.name@);
            assert(g.messages@.map_values(|mm: &Message| *mm) == crate::classify::in_group(
                ms,
                g.name@,
            ));
            lemma_in_group_valid(m.registry, ms, g.name@);
        }
        let text = define_trait(g.name.as_str(), &g.messages, &m.registry);
        traits.append(text.as_str());
        proof {
            assert(names.take(k + 1 as int).drop_last() =~= names.take(k as int));
            assert(names.take(k + 1 as int).last() == names[k as int]);
        }
        k = k + 1;
    }
    proof {
        assert(names.take(groups@.len() as int) =~= names);
    }
    r.append(traits.as_str());
    let upload = define_upload(wasm_path);
    r.append(upload.as_str());
    proof {
        lemma_inherents_valid(m.registry, ms);
    }
    let inst = define_impl_instance(&m.constructors, &top, &m.registry);
    r.append(inst.as_str());
    proof {
        assert(r@ =~= generated_text(*m, opt_str_view(*wasm_path)));
    }
    Ok(r)
}


proof fn lemma_min_free(base: Seq<char>, labels: Seq<Seq<char>>, k: nat)
    requires
        !name_taken(base + underscores(k), labels),
    ensures
        exists|k2: nat|
            k2 <= k && !name_taken(base + #[trigger] underscores(k2), labels) && (forall|j: nat|
                j < k2 ==> name_taken(base + underscores(j), labels)),
    decreases k,
{
    if forall|j: nat| j < k ==> name_taken(base + underscores(j), labels) {
        assert(k <= k && !name_taken(base + underscores(k), labels) && (forall|j: nat|
            j < k ==> name_taken(base + underscores(j), labels)));
    } else {
        let j0 = choose|j0: nat| j0 < k && !name_taken(base + underscores(j0), labels);
        lemma_min_free(base, labels, j0);
        let k2 = choose|k2: nat|
            k2 <= j0 && !name_taken(base + #[trigger] underscores(k2), labels) && (forall|j: nat|
                j < k2 ==> name_taken(base + underscores(j), labels));
        assert(k2 <= k && !name_taken(base + underscores(k2), labels) && (forall|j: nat|
            j < k2 ==> name_taken(base + underscores(j), labels)));
    }
}

/// Law: the accumulator identifier derived for a call body never collides
/// with any declared argument name, and is the shortest underscore
/// extension of its base that is free; so a contract argument named like
/// the accumulator shifts the accumulator, never the argument.
pub proof fn lemma_accumulator_name(args: Seq<Arg>)
    ensures
        !name_taken(data_name("data"@, args), arg_labels(args)),
        exists|k: nat|
            data_name("data"@, args) == "data"@ + #[trigger] underscores(k) && (forall|j: nat|
                j < k ==> name_taken("data"@ + underscores(j), arg_labels(args))),
{
    let labels = arg_labels(args);
    lemma_new_name_exists("data"@, labels);
    let k0 = choose|k: nat| k <= labels.len() && !name_taken("data"@ + underscores(k), labels);
    lemma_min_free("data"@, labels, k0);
    let km = choose|k2: nat|
        k2 <= k0 && !name_taken("data"@ + #[trigger] underscores(k2), labels) && (forall|j: nat|
            j < k2 ==> name_taken("data"@ + underscores(j), labels));
    assert(labels.len() == args.len());
    lemma_new_name_char("data"@, labels, km, (args.len() + 1) as nat);
    assert(data_name("data"@, args) == "data"@ + underscores(km) && (forall|j: nat|
        j < km ==> name_taken("data"@ + underscores(j), arg_labels(args))));
}

} // verus!
