//! The prototype renderer: the textual call signature of a function, on
//! one line by default, split over several lines when many parameters
//! carry documentation or the line grows too long.

use vstd::prelude::*;
use crate::model::FunctionDoc;
use crate::model::Param;
use crate::model::ParamKind;
use crate::model::TypeRef;
use crate::text::spec_join;

verus! {

/// A function with more documented parameters than this has its prototype
/// split over multiple lines.
pub const MAX_ARGS_BEFORE_MULTILINE: usize = 3;

/// A single-line prototype longer than this is split anyway.
pub const MAX_LENGTH_BEFORE_MULTILINE: usize = 80;

/// The parameter's name with its kind marker: `*` and `**` prefixes mark
/// the variadic kinds, every other kind shows the bare name.
pub open spec fn spec_starred_name(p: Param) -> Seq<char> {
    match p.kind {
        ParamKind::Args => "*"@ + p.name@,
        ParamKind::Kwargs => "**"@ + p.name@,
        _ => p.name@,
    }
}

/// The parameter's name with its kind marker.
pub fn starred_name(p: &Param) -> (r: String)
    ensures
        r@ == spec_starred_name(*p),
{
    match p.kind {
        ParamKind::Args => {
            let mut s = String::from_str("*");
            s.append(p.name.as_str());
            s
        },
        ParamKind::Kwargs => {
            let mut s = String::from_str("**");
            s.append(p.name.as_str());
            s
        },
        _ => p.name.clone(),
    }
}

/// The parameter as it stands in a prototype: its marked name, and
/// `: type` when its type is constrained.
pub open spec fn spec_param_code(p: Param) -> Seq<char> {
    spec_starred_name(p) + (if p.typ.unconstrained {
        Seq::<char>::empty()
    } else {
        ": "@ + p.typ.text@
    })
}

/// Renders one parameter as it stands in a prototype.
pub fn param_code(p: &Param) -> (r: String)
    ensures
        r@ == spec_param_code(*p),
{
    let mut s = starred_name(p);
    if !p.typ.unconstrained {
        s.append(": ");
        s.append(p.typ.text.as_str());
    } else {
        proof {
            assert(s@ + Seq::<char>::empty() =~= s@);
        }
    }
    s
}

/// All parameters on one line, separated by commas.
pub open spec fn spec_params_one_line(params: Seq<Param>) -> Seq<char> {
    spec_join(params.map_values(|p: Param| spec_param_code(p)), ", "@)
}

/// Renders the parameter list on one line.
pub fn render_params_one_line(params: &Vec<Param>) -> (r: String)
    ensures
        r@ == spec_params_one_line(params@),
{
    let mut codes: Vec<String> = Vec::new();
    let mut i: usize = 0;
    while i < params.len()
        invariant
            i <= params@.len(),
            codes.deep_view() == params@.subrange(0, i as int).map_values(
                |p: Param| spec_param_code(p),
            ),
        decreases params@.len() - i,
    {
        let ghost dv0 = codes.deep_view();
        let c = param_code(&params[i]);
        codes.push(c);
        proof {
            assert(codes.deep_view() =~= dv0.push(spec_param_code(params@[i as int])));
            assert(params@.subrange(0, i + 1).map_values(|p: Param| spec_param_code(p)) =~= dv0.push(
                spec_param_code(params@[i as int]),
            ));
        }
        i = i + 1;
    }
    proof {
        assert(params@.subrange(0, params@.len() as int) =~= params@);
    }
    crate::text::join_with(&codes, ", ")
}

/// All parameters one per line, indented, each closed by a comma.
pub open spec fn spec_params_chunked(params: Seq<Param>) -> Seq<char>
    decreases params.len(),
{
    if params.len() == 0 {
        Seq::<char>::empty()
    } else {
        spec_params_chunked(params.drop_last()) + "    "@ + spec_param_code(params.last()) + ",\n"@
    }
}

/// Renders the parameter list one parameter per line.
pub fn render_params_chunked(params: &Vec<Param>) -> (r: String)
    ensures
        r@ == spec_params_chunked(params@),
{
    let mut out: String = String::new();
    let mut i: usize = 0;
    while i < params.len()
        invariant
            i <= params@.len(),
            out@ == spec_params_chunked(params@.subrange(0, i as int)),
        decreases params@.len() - i,
    {
        let c = param_code(&params[i]);
        out.append("    ");
        out.append(c.as_str());
        out.append(",\n");
        proof {
            let pre1 = params@.subrange(0, i + 1);
            assert(pre1.drop_last() =~= params@.subrange(0, i as int));
            assert(pre1.last() == params@[i as int]);
        }
        i = i + 1;
    }
    proof {
        assert(params@.subrange(0, params@.len() as int) =~= params@);
    }
    out
}

/// How many parameters carry documentation. Only these count toward the
/// multi-line threshold, not the total number of parameters.
pub open spec fn spec_documented_count(params: Seq<Param>) -> nat
    decreases params.len(),
{
    if params.len() == 0 {
        0nat
    } else {
        spec_documented_count(params.drop_last()) + (if params.last().docs is Some {
            1nat
        } else {
            0nat
        })
    }
}

/// Counts the parameters that carry documentation.
pub fn documented_param_count(params: &Vec<Param>) -> (r: usize)
    ensures
        r == spec_documented_count(params@),
{
    let mut count: usize = 0;
    let mut i: usize = 0;
    while i < params.len()
        invariant
            i <= params@.len(),
            count <= i,
            count == spec_documented_count(params@.subrange(0, i as int)),
        decreases params@.len() - i,
    {
        proof {
            let pre1 = params@.subrange(0, i + 1);
            assert(pre1.drop_last() =~= params@.subrange(0, i as int));
            assert(pre1.last() == params@[i as int]);
        }
        if params[i].docs.is_some() {
            count = count + 1;
        }
        i = i + 1;
    }
    proof {
        assert(params@.subrange(0, params@.len() as int) =~= params@);
    }
    count
}

/// The given prefix followed by the type's text, or nothing when the type
/// is unconstrained.
pub open spec fn spec_type_prefix(prefix: Seq<char>, t: TypeRef) -> Seq<char> {
    if t.unconstrained {
        Seq::<char>::empty()
    } else {
        prefix + t.text@
    }
}

/// Renders a prefixed type text, or nothing for an unconstrained type.
pub fn raw_type_prefix(prefix: &str, t: &TypeRef) -> (r: String)
    ensures
        r@ == spec_type_prefix(prefix@, *t),
{
    if t.unconstrained {
        String::new()
    } else {
        let mut s = String::from_str(prefix);
        s.append(t.text.as_str());
        s
    }
}

/// The return-type suffix of a prototype: ` -> type`, or nothing when the
/// return type is unconstrained.
pub open spec fn spec_ret_suffix(t: TypeRef) -> Seq<char> {
    spec_type_prefix(" -> "@, t)
}

/// The single-line form of a prototype.
pub open spec fn spec_single_line(name: Seq<char>, f: FunctionDoc) -> Seq<char> {
    "def "@ + name + "("@ + spec_params_one_line(f.params@) + ")"@ + spec_ret_suffix(f.ret.typ)
}

/// The multi-line form of a prototype.
pub open spec fn spec_multi_line(name: Seq<char>, f: FunctionDoc) -> Seq<char> {
    "def "@ + name + "(\n"@ + spec_params_chunked(f.params@) + ")"@ + spec_ret_suffix(f.ret.typ)
}

/// The prototype of a function: single-line by default, multi-line when
/// more than `MAX_ARGS_BEFORE_MULTILINE` parameters carry documentation or
/// the single-line form is longer than `MAX_LENGTH_BEFORE_MULTILINE`
/// characters.
pub open spec fn spec_prototype(name: Seq<char>, f: FunctionDoc) -> Seq<char> {
    if spec_documented_count(f.params@) > MAX_ARGS_BEFORE_MULTILINE || spec_single_line(
        name,
        f,
    ).len() > MAX_LENGTH_BEFORE_MULTILINE {
        spec_multi_line(name, f)
    } else {
        spec_single_line(name, f)
    }
}

/// Renders the textual call signature of a function.
pub fn render_function_prototype(function_name: &str, f: &FunctionDoc) -> (r: String)
    ensures
        r@ == spec_prototype(function_name@, *f),
{
    let ret_type = raw_type_prefix(" -> ", &f.ret.typ);
    let mut prefix = String::from_str("def ");
    prefix.append(function_name);
    let one_line_params = render_params_one_line(&f.params);
    let mut single_line_result = prefix.clone();
    single_line_result.append("(");
    single_line_result.append(one_line_params.as_str());
    single_line_result.append(")");
    single_line_result.append(ret_type.as_str());
    proof {
        assert(single_line_result@ =~= spec_single_line(function_name@, *f));
    }
    let count = documented_param_count(&f.params);
    if count > MAX_ARGS_BEFORE_MULTILINE || single_line_result.as_str().unicode_len()
        > MAX_LENGTH_BEFORE_MULTILINE {
        let chunked_params = render_params_chunked(&f.params);
        let mut out = prefix;
        out.append("(\n");
        out.append(chunked_params.as_str());
        out.append(")");
        out.append(ret_type.as_str());
        proof {
            assert(out@ =~= spec_multi_line(function_name@, *f));
        }
        out
    } else {
        single_line_result
    }
}

/// The contents wrapped in a fenced code block tagged with the target
/// language.
pub open spec fn spec_code_block(contents: Seq<char>) -> Seq<char> {
    "```python\n"@ + contents + "\n```"@
}

/// Wraps contents in a fenced, language-tagged code block.
pub fn render_code_block(contents: &str) -> (r: String)
    ensures
        r@ == spec_code_block(contents@),
{
    let mut out = String::from_str("```python\n");
    out.append(contents);
    out.append("\n```");
    out
}

/// Layout law: at most `MAX_ARGS_BEFORE_MULTILINE` documented parameters
/// together with a short single-line form render on one line; more
/// documented parameters, or an over-long single-line form, force the
/// multi-line form.
pub proof fn lemma_prototype_layout(name: Seq<char>, f: FunctionDoc)
    ensures
        spec_documented_count(f.params@) <= MAX_ARGS_BEFORE_MULTILINE && spec_single_line(
            name,
            f,
        ).len() <= MAX_LENGTH_BEFORE_MULTILINE ==> spec_prototype(name, f) == spec_single_line(
            name,
            f,
        ),
        spec_documented_count(f.params@) > MAX_ARGS_BEFORE_MULTILINE ==> spec_prototype(name, f)
            == spec_multi_line(name, f),
        spec_single_line(name, f).len() > MAX_LENGTH_BEFORE_MULTILINE ==> spec_prototype(name, f)
            == spec_multi_line(name, f),
{
}

/// Return-suffix law: an unconstrained return type adds nothing after the
/// closing parenthesis, in either layout; a constrained one appends
/// exactly ` -> ` and its text.
pub proof fn lemma_return_suffix(name: Seq<char>, f: FunctionDoc)
    ensures
        f.ret.typ.unconstrained ==> spec_single_line(name, f) == "def "@ + name + "("@
            + spec_params_one_line(f.params@) + ")"@,
        f.ret.typ.unconstrained ==> spec_multi_line(name, f) == "def "@ + name + "(\n"@
            + spec_params_chunked(f.params@) + ")"@,
        !f.ret.typ.unconstrained ==> spec_single_line(name, f) == "def "@ + name + "("@
            + spec_params_one_line(f.params@) + ")"@ + " -> "@ + f.ret.typ.text@,
        !f.ret.typ.unconstrained ==> spec_multi_line(name, f) == "def "@ + name + "(\n"@
            + spec_params_chunked(f.params@) + ")"@ + " -> "@ + f.ret.typ.text@,
{
    if f.ret.typ.unconstrained {
        assert(spec_single_line(name, f) =~= "def "@ + name + "("@ + spec_params_one_line(f.params@)
            + ")"@);
        assert(spec_multi_line(name, f) =~= "def "@ + name + "(\n"@ + spec_params_chunked(f.params@)
            + ")"@);
    }
}

} // verus!
