//! The entity renderer: complete Markdown blocks for properties,
//! functions, composite types and modules, composed from the prose
//! selector and the prototype renderer.

use vstd::prelude::*;
use itertools::Itertools;
use crate::model::CompositeTypeDoc;
use crate::model::DocItem;
use crate::model::FunctionDoc;
use crate::model::Member;
use crate::model::ModuleMember;
use crate::model::Param;
use crate::model::PropertyDoc;
use crate::model::ProseBlock;
use crate::prose::DSOpts;
use crate::prose::render_doc_string;
use crate::prose::spec_combined;
use crate::prose::spec_doc_string;
use crate::prose::spec_opt_sect;
use crate::prototype::render_code_block;
use crate::prototype::render_function_prototype;
use crate::prototype::spec_code_block;
use crate::prototype::spec_prototype;
use crate::prototype::spec_starred_name;
use crate::prototype::starred_name;
use crate::sorting::lemma_sort_indices_bounds;
use crate::sorting::sort_indices;
use crate::text::escape_name;
use crate::text::join_with;
use crate::text::spec_escape;
use crate::text::spec_join;
use crate::text::spec_lines;
use crate::text::split_lines;
use crate::text::str_lt;

verus! {

/// Summary and details joined with a blank line when both are present.
fn combined_text(d: &ProseBlock) -> (r: String)
    ensures
        r@ == spec_combined(*d),
{
    let mut text = d.summary.clone();
    match &d.details {
        Some(det) => {
            text.append("\n\n");
            text.append(det.as_str());
        },
        None => {},
    }
    text
}

/// The continuation lines of a bullet entry: each line of prose after the
/// first, indented two spaces, line breaks kept.
pub open spec fn spec_continuations(ls: Seq<Seq<char>>) -> Seq<char>
    decreases ls.len(),
{
    if ls.len() == 0 {
        Seq::<char>::empty()
    } else {
        spec_continuations(ls.drop_last()) + "  "@ + ls.last() + "\n"@
    }
}

/// One bulleted list entry: the name in a code span, then the first line
/// of the prose, then its further lines as indented continuations.
pub open spec fn spec_bullet(name: Seq<char>, text: Seq<char>) -> Seq<char> {
    let ls = spec_lines(text);
    if ls.len() == 0 {
        "* `"@ + name + "`\n"@
    } else {
        "* `"@ + name + "`: "@ + ls[0] + "\n"@ + spec_continuations(ls.drop_first())
    }
}

fn render_bullet(name: &str, text: &str) -> (r: String)
    ensures
        r@ == spec_bullet(name@, text@),
{
    let lines = split_lines(text);
    let ghost ls = spec_lines(text@);
    let mut out = String::from_str("* `");
    out.append(name);
    if lines.len() == 0 {
        out.append("`\n");
        proof {
            assert(out@ =~= spec_bullet(name@, text@));
        }
        out
    } else {
        out.append("`: ");
        out.append(lines[0].as_str());
        out.append("\n");
        let ghost base = out@;
        let mut i: usize = 1;
        proof {
            assert(ls.subrange(1, 1) =~= Seq::<Seq<char>>::empty());
            assert(base + spec_continuations(ls.subrange(1, 1)) =~= base);
        }
        while i < lines.len()
            invariant
                1 <= i <= lines@.len(),
                lines.deep_view() == ls,
                ls.len() == lines@.len(),
                out@ == base + spec_continuations(ls.subrange(1, i as int)),
                base == "* `"@ + name@ + "`: "@ + ls[0] + "\n"@,
            decreases lines@.len() - i,
        {
            out.append("  ");
            out.append(lines[i].as_str());
            out.append("\n");
            proof {
                let pre1 = ls.subrange(1, i + 1);
                assert(pre1.drop_last() =~= ls.subrange(1, i as int));
                assert(pre1.last() == ls[i as int]);
                assert(lines@[i as int]@ == ls[i as int]);
                assert(out@ =~= base + spec_continuations(pre1));
            }
            i = i + 1;
        }
        proof {
            assert(ls.subrange(1, ls.len() as int) =~= ls.drop_first());
            assert(out@ =~= spec_bullet(name@, text@));
        }
        out
    }
}

/// One parameter's documentation as a bullet entry, or nothing when the
/// parameter carries no documentation.
pub open spec fn spec_render_doc_param(name: Seq<char>, p: Param) -> Seq<char> {
    match p.docs {
        Some(d) => spec_bullet(name, spec_combined(d)),
        None => Seq::<char>::empty(),
    }
}

/// Renders one parameter's documentation in isolation, under the marked
/// name the caller supplies.
pub fn render_doc_param(starred_name: String, item: &Param) -> (r: String)
    ensures
        r@ == spec_render_doc_param(starred_name@, *item),
{
    match &item.docs {
        Some(d) => {
            let text = combined_text(d);
            render_bullet(starred_name.as_str(), text.as_str())
        },
        None => String::new(),
    }
}

/// The bullet entries of all documented parameters, in parameter order;
/// parameters without documentation are skipped.
pub open spec fn spec_bullets(params: Seq<Param>) -> Seq<char>
    decreases params.len(),
{
    if params.len() == 0 {
        Seq::<char>::empty()
    } else {
        spec_bullets(params.drop_last()) + spec_render_doc_param(
            spec_starred_name(params.last()),
            params.last(),
        )
    }
}

/// Whether any parameter carries documentation.
pub open spec fn spec_any_documented(params: Seq<Param>) -> bool {
    exists|i: int| 0 <= i < params.len() && (#[trigger] params[i].docs) is Some
}

/// The Parameters section body: the bullet list of documented parameters,
/// or nothing when no parameter is documented.
pub open spec fn spec_params_section(params: Seq<Param>) -> Option<Seq<char>> {
    if spec_any_documented(params) {
        Some(spec_bullets(params))
    } else {
        None
    }
}

proof fn lemma_bullets_undocumented(params: Seq<Param>)
    requires
        !spec_any_documented(params),
    ensures
        spec_bullets(params) == Seq::<char>::empty(),
    decreases params.len(),
{
    if params.len() > 0 {
        assert(!spec_any_documented(params.drop_last())) by {
            if spec_any_documented(params.drop_last()) {
                let i = choose|i: int|
                    0 <= i < params.drop_last().len() && (#[trigger] params.drop_last()[i].docs)
                        is Some;
                assert(params[i].docs is Some);
            }
        }
        lemma_bullets_undocumented(params.drop_last());
        assert(params[params.len() - 1].docs is None);
        assert(spec_bullets(params) =~= Seq::<char>::empty());
    }
}

/// Renders the documented parameters as a bulleted list, or nothing when
/// no parameter is documented.
pub fn render_function_parameters(params: &Vec<Param>) -> (r: Option<String>)
    ensures
        r.deep_view() == spec_params_section(params@),
{
    let mut acc: Option<String> = None;
    let mut i: usize = 0;
    while i < params.len()
        invariant
            i <= params@.len(),
            acc.deep_view() == spec_params_section(params@.subrange(0, i as int)),
        decreases params@.len() - i,
    {
        let ghost pre = params@.subrange(0, i as int);
        let ghost pre1 = params@.subrange(0, i + 1);
        proof {
            assert(pre1.drop_last() =~= pre);
            assert(pre1.last() == params@[i as int]);
        }
        if params[i].docs.is_some() {
            let sn = starred_name(&params[i]);
            let bullet = render_doc_param(sn, &params[i]);
            proof {
                assert(spec_any_documented(pre1));
            }
            match acc {
                Some(mut s) => {
                    s.append(bullet.as_str());
                    acc = Some(s);
                },
                None => {
                    proof {
                        lemma_bullets_undocumented(pre);
                        assert(Seq::<char>::empty() + bullet@ =~= bullet@);
                    }
                    acc = Some(bullet);
                },
            }
        } else {
            proof {
                assert(spec_any_documented(pre1) == spec_any_documented(pre)) by {
                    if spec_any_documented(pre1) {
                        let i0 = choose|i0: int|
                            0 <= i0 < pre1.len() && (#[trigger] pre1[i0].docs) is Some;
                        assert(i0 < pre.len() && pre[i0].docs is Some);
                    }
                    if spec_any_documented(pre) {
                        let i0 = choose|i0: int|
                            0 <= i0 < pre.len() && (#[trigger] pre[i0].docs) is Some;
                        assert(pre1[i0].docs is Some);
                    }
                }
                assert(spec_bullets(pre1) =~= spec_bullets(pre));
            }
        }
        i = i + 1;
    }
    proof {
        assert(params@.subrange(0, params@.len() as int) =~= params@);
    }
    acc
}

/// The complete Markdown block of a function: an optional escaped-name
/// header, the prototype in a code block, then — each only if present and
/// preceded by a blank line — the summary, a Parameters section, a Returns
/// section, and the details (under a Details header only when a
/// Parameters or Returns section came before).
pub open spec fn spec_render_function(name: Seq<char>, f: FunctionDoc, include_header: bool) -> Seq<
    char,
> {
    let proto = spec_code_block(spec_prototype(name, f));
    let header = if include_header {
        "## "@ + spec_escape(name) + "\n\n"@ + proto
    } else {
        proto
    };
    let summary = spec_doc_string(DSOpts::Summary, f.docs);
    let details = spec_doc_string(DSOpts::Details, f.docs);
    let params = spec_params_section(f.params@);
    let rets = spec_doc_string(DSOpts::Combined, f.ret.docs);
    header + spec_opt_sect("\n\n"@, summary) + spec_opt_sect("\n\n#### Parameters\n\n"@, params)
        + spec_opt_sect("\n\n#### Returns\n\n"@, rets) + (match details {
        None => Seq::<char>::empty(),
        Some(d) => (if params is Some || rets is Some {
            "\n\n#### Details\n\n"@
        } else {
            "\n\n"@
        }) + d,
    })
}

/// Renders a function as a full Markdown block; the header is omitted when
/// the function stands as a composite type's constructor.
pub fn render_function(name: &str, function: &FunctionDoc, include_header: bool) -> (r: String)
    ensures
        r@ == spec_render_function(name@, *function, include_header),
{
    let proto_text = render_function_prototype(name, function);
    let prototype = render_code_block(proto_text.as_str());
    let mut body: String;
    if include_header {
        body = String::from_str("## ");
        let esc = escape_name(name);
        body.append(esc.as_str());
        body.append("\n\n");
        body.append(prototype.as_str());
    } else {
        body = prototype;
    }
    let ghost header = body@;
    let ghost mut expect = header;

    let summary = render_doc_string(DSOpts::Summary, &function.docs);
    match &summary {
        Some(s) => {
            body.append("\n\n");
            body.append(s.as_str());
        },
        None => {},
    }
    proof {
        expect = expect + spec_opt_sect("\n\n"@, spec_doc_string(DSOpts::Summary, function.docs));
        assert(body@ =~= expect);
    }

    let parameter_docs = render_function_parameters(&function.params);
    match &parameter_docs {
        Some(p) => {
            body.append("\n\n#### Parameters\n\n");
            body.append(p.as_str());
        },
        None => {},
    }
    proof {
        expect = expect + spec_opt_sect(
            "\n\n#### Parameters\n\n"@,
            spec_params_section(function.params@),
        );
        assert(body@ =~= expect);
    }

    let return_docs = render_doc_string(DSOpts::Combined, &function.ret.docs);
    match &return_docs {
        Some(ret) => {
            body.append("\n\n#### Returns\n\n");
            body.append(ret.as_str());
        },
        None => {},
    }
    proof {
        expect = expect + spec_opt_sect(
            "\n\n#### Returns\n\n"@,
            spec_doc_string(DSOpts::Combined, function.ret.docs),
        );
        assert(body@ =~= expect);
    }

    let details = render_doc_string(DSOpts::Details, &function.docs);
    match &details {
        Some(d) => {
            if parameter_docs.is_some() || return_docs.is_some() {
                body.append("\n\n#### Details\n\n");
            } else {
                body.append("\n\n");
            }
            body.append(d.as_str());
        },
        None => {},
    }
    proof {
        expect = expect + (match spec_doc_string(DSOpts::Details, function.docs) {
            None => Seq::<char>::empty(),
            Some(d) => (if spec_params_section(function.params@) is Some || spec_doc_string(
                DSOpts::Combined,
                function.ret.docs,
            ) is Some {
                "\n\n#### Details\n\n"@
            } else {
                "\n\n"@
            }) + d,
        });
        assert(body@ =~= expect);
        assert(spec_render_function(name@, *function, include_header) == expect);
    }
    body
}

/// The complete Markdown block of a property: the escaped-name header, a
/// code block showing `name: type`, then the summary and the details, each
/// only if present and preceded by a blank line.
pub open spec fn spec_render_property(name: Seq<char>, property: PropertyDoc) -> Seq<char> {
    "## "@ + spec_escape(name) + "\n\n"@ + spec_code_block(name + ": "@ + property.typ.text@)
        + spec_opt_sect("\n\n"@, spec_doc_string(DSOpts::Summary, property.docs)) + spec_opt_sect(
        "\n\n"@,
        spec_doc_string(DSOpts::Details, property.docs),
    )
}

/// Renders a property as a full Markdown block.
pub fn render_property(name: &str, property: &PropertyDoc) -> (r: String)
    ensures
        r@ == spec_render_property(name@, *property),
{
    let mut proto_text = String::from_str(name);
    proto_text.append(": ");
    proto_text.append(property.typ.text.as_str());
    let prototype = render_code_block(proto_text.as_str());
    let mut body = String::from_str("## ");
    let esc = escape_name(name);
    body.append(esc.as_str());
    body.append("\n\n");
    body.append(prototype.as_str());
    let ghost header = body@;
    let ghost mut expect = header;

    let summary = render_doc_string(DSOpts::Summary, &property.docs);
    match &summary {
        Some(s) => {
            body.append("\n\n");
            body.append(s.as_str());
        },
        None => {},
    }
    proof {
        expect = expect + spec_opt_sect("\n\n"@, spec_doc_string(DSOpts::Summary, property.docs));
        assert(body@ =~= expect);
    }

    let details = render_doc_string(DSOpts::Details, &property.docs);
    match &details {
        Some(d) => {
            body.append("\n\n");
            body.append(d.as_str());
        },
        None => {},
    }
    proof {
        expect = expect + spec_opt_sect("\n\n"@, spec_doc_string(DSOpts::Details, property.docs));
        assert(body@ =~= expect);
        assert(spec_render_property(name@, *property) == expect);
    }
    body
}

/// The Markdown block of a member: function or property rules, by kind.
pub open spec fn spec_render_member(name: Seq<char>, m: Member) -> Seq<char> {
    match m {
        Member::Function(f) => spec_render_function(name, f, true),
        Member::Property(p) => spec_render_property(name, p),
    }
}

/// Renders a single named member, function or property.
pub fn render_doc_member(name: &str, item: &Member) -> (r: String)
    ensures
        r@ == spec_render_member(name@, *item),
{
    match item {
        Member::Function(f) => render_function(name, f, true),
        Member::Property(p) => render_property(name, p),
    }
}

/// The view of borrowed member pairs: each name as text beside its member.
pub open spec fn member_pairs_view(members: Seq<(&String, &Member)>) -> Seq<(Seq<char>, Member)> {
    members.map_values(|p: (&String, &Member)| (p.0@, *p.1))
}

/// The names of the member pairs, in their given order.
pub open spec fn spec_member_names(members: Seq<(Seq<char>, Member)>) -> Seq<Seq<char>> {
    members.map_values(|p: (Seq<char>, Member)| p.0)
}

/// The member blocks in render order: the members stably sorted by name,
/// each rendered under its prefixed name.
pub open spec fn spec_sorted_blocks(prefix: Seq<char>, members: Seq<(Seq<char>, Member)>) -> Seq<
    Seq<char>,
> {
    let order = sort_indices(spec_member_names(members));
    Seq::new(
        order.len(),
        |k: int|
            spec_render_member(
                prefix + members[order[k] as int].0,
                members[order[k] as int].1,
            ),
    )
}

/// The complete Markdown block of a member container: a `# name` header,
/// the container's combined prose if any, then the member blocks — an
/// optional leading block first, then the members sorted by name — joined
/// by a horizontal rule between consecutive blocks.
pub open spec fn spec_render_members(
    name: Seq<char>,
    docs: Option<ProseBlock>,
    prefix: Seq<char>,
    members: Seq<(Seq<char>, Member)>,
    after_summary: Option<Seq<char>>,
) -> Seq<char> {
    let summary = spec_opt_sect("\n\n"@, spec_doc_string(DSOpts::Combined, docs));
    let blocks = match after_summary {
        Some(b) => seq![b] + spec_sorted_blocks(prefix, members),
        None => spec_sorted_blocks(prefix, members),
    };
    "# "@ + name + summary + "\n\n"@ + spec_join(blocks, "\n\n---\n\n"@)
}

/// Relies on itertools' `Itertools::sorted_by_key`: a stable sort (equal
/// keys keep their relative order) of the member indices by the name each
/// one picks, under `String`'s lexicographic codepoint order — exactly
/// the order that `sort_indices` describes.
#[verifier::external_body]
fn sorted_member_order(members: &Vec<(&String, &Member)>) -> (r: Vec<usize>)
    ensures
        r@ == sort_indices(spec_member_names(member_pairs_view(members@))),
{
    (0..members.len()).sorted_by_key(|i: &usize| members[*i].0).collect()
}

/// Renders a member container: its header and prose, an optional leading
/// block, and its member blocks sorted by name, joined by rules.
pub fn render_members(
    name: &str,
    docs: &Option<ProseBlock>,
    prefix: &str,
    members: Vec<(&String, &Member)>,
    after_summary: Option<String>,
) -> (r: String)
    ensures
        r@ == spec_render_members(
            name@,
            *docs,
            prefix@,
            member_pairs_view(members@),
            after_summary.deep_view(),
        ),
{
    let ghost mpairs = member_pairs_view(members@);
    let ghost names = spec_member_names(mpairs);
    let n = members.len();
    proof {
        assert(names.len() == n);
        lemma_sort_indices_bounds(names);
    }
    let order = sorted_member_order(&members);
    let ghost sblocks = spec_sorted_blocks(prefix@, mpairs);
    let ghost afterv = after_summary.deep_view();
    let mut blocks: Vec<String> = Vec::new();
    match after_summary {
        Some(b) => {
            let ghost bv = b@;
            blocks.push(b);
            proof {
                assert(blocks.deep_view() =~= seq![bv]);
            }
        },
        None => {
            proof {
                assert(blocks.deep_view() =~= Seq::<Seq<char>>::empty());
            }
        },
    }
    let ghost base = blocks.deep_view();
    let mut k: usize = 0;
    proof {
        assert(base + sblocks.subrange(0, 0) =~= base);
    }
    while k < order.len()
        invariant
            k <= order@.len(),
            order@ == sort_indices(names),
            mpairs == member_pairs_view(members@),
            names == spec_member_names(mpairs),
            sblocks == spec_sorted_blocks(prefix@, mpairs),
            names.len() == members@.len(),
            order@.len() == names.len(),
            forall|j: int| 0 <= j < names.len() ==> (#[trigger] order@[j] as int) < names.len(),
            blocks.deep_view() == base + sblocks.subrange(0, k as int),
        decreases order@.len() - k,
    {
        let idx: usize = order[k];
        let mut full = String::from_str(prefix);
        full.append(members[idx].0.as_str());
        let block = render_doc_member(full.as_str(), members[idx].1);
        proof {
            assert(mpairs[idx as int].0 == members@[idx as int].0@);
            assert(mpairs[idx as int].1 == *members@[idx as int].1);
            assert(block@ == sblocks[k as int]);
        }
        let ghost dv0 = blocks.deep_view();
        blocks.push(block);
        proof {
            assert(blocks.deep_view() =~= dv0.push(sblocks[k as int]));
            assert(sblocks.subrange(0, k + 1).drop_last() =~= sblocks.subrange(0, k as int));
            assert(sblocks.subrange(0, k + 1).last() == sblocks[k as int]);
            assert(dv0.push(sblocks[k as int]) =~= base + sblocks.subrange(0, k + 1));
        }
        k = k + 1;
    }
    proof {
        assert(sblocks.len() == order@.len());
        assert(sblocks.subrange(0, sblocks.len() as int) =~= sblocks);
        assert(blocks.deep_view() == base + sblocks);
    }
    let joined = join_with(&blocks, "\n\n---\n\n");
    let mut out = String::from_str("# ");
    out.append(name);
    let summary = render_doc_string(DSOpts::Combined, docs);
    match &summary {
        Some(s) => {
            out.append("\n\n");
            out.append(s.as_str());
        },
        None => {},
    }
    out.append("\n\n");
    out.append(joined.as_str());
    proof {
        let spec_blocks = match afterv {
            Some(b) => seq![b] + sblocks,
            None => sblocks,
        };
        assert(base + sblocks =~= spec_blocks);
        assert(out@ =~= "# "@ + name@ + spec_opt_sect(
            "\n\n"@,
            spec_doc_string(DSOpts::Combined, *docs),
        ) + "\n\n"@ + spec_join(spec_blocks, "\n\n---\n\n"@));
    }
    out
}

/// The members of a composite type as name–member pairs.
pub open spec fn spec_composite_members(t: CompositeTypeDoc) -> Seq<(Seq<char>, Member)> {
    t.members@.map_values(|p: (String, Member)| (p.0@, p.1))
}

/// The complete Markdown block of a composite type: a member container
/// whose leading block is the type's constructor, when present, rendered
/// as a headerless function under the container's own name.
pub open spec fn spec_render_doc_type(name: Seq<char>, prefix: Seq<char>, t: CompositeTypeDoc) -> Seq<
    char,
> {
    let ctor = match t.constructor {
        Some(c) => Some(spec_render_function(name, c, false)),
        None => None,
    };
    spec_render_members(name, t.docs, prefix, spec_composite_members(t), ctor)
}

/// Renders a composite type: its constructor block, then its members.
pub fn render_doc_type(name: &str, prefix: &str, t: &CompositeTypeDoc) -> (r: String)
    ensures
        r@ == spec_render_doc_type(name@, prefix@, *t),
{
    let constructor: Option<String> = match &t.constructor {
        Some(c) => Some(render_function(name, c, false)),
        None => None,
    };
    let ghost cm = spec_composite_members(*t);
    let mut mref: Vec<(&String, &Member)> = Vec::new();
    let mut i: usize = 0;
    proof {
        assert(member_pairs_view(mref@) =~= cm.subrange(0, 0));
    }
    while i < t.members.len()
        invariant
            i <= t.members@.len(),
            cm == spec_composite_members(*t),
            cm.len() == t.members@.len(),
            member_pairs_view(mref@) == cm.subrange(0, i as int),
        decreases t.members@.len() - i,
    {
        let ghost dv0 = member_pairs_view(mref@);
        mref.push((&t.members[i].0, &t.members[i].1));
        proof {
            assert(member_pairs_view(mref@) =~= dv0.push(
                (t.members@[i as int].0@, t.members@[i as int].1),
            ));
            assert(cm.subrange(0, i + 1) =~= dv0.push(
                (t.members@[i as int].0@, t.members@[i as int].1),
            ));
        }
        i = i + 1;
    }
    proof {
        assert(cm.subrange(0, cm.len() as int) =~= cm);
    }
    render_members(name, &t.docs, prefix, mref, constructor)
}

/// The members of a module that render as plain members: nested composite
/// types do not stand in the module's own block.
pub open spec fn spec_module_member_list(members: Seq<(String, ModuleMember)>) -> Seq<
    (Seq<char>, Member),
>
    decreases members.len(),
{
    if members.len() == 0 {
        Seq::<(Seq<char>, Member)>::empty()
    } else {
        spec_module_member_list(members.drop_last()) + (match members.last().1 {
            ModuleMember::Member(m) => seq![(members.last().0@, m)],
            ModuleMember::Type(_) => Seq::<(Seq<char>, Member)>::empty(),
        })
    }
}

/// The complete Markdown block of a top-level entity: a module renders as
/// a member container of its plain members under their bare names; a
/// composite type renders under a decorated name, its member names
/// prefixed with its own; a lone member renders under the member rules.
pub open spec fn spec_render_doc_item(name: Seq<char>, item: DocItem) -> Seq<char> {
    match item {
        DocItem::Module(m) => spec_render_members(
            name,
            m.docs,
            Seq::<char>::empty(),
            spec_module_member_list(m.members@),
            None,
        ),
        DocItem::Type(t) => spec_render_doc_type("`"@ + name + "` type"@, name + "."@, t),
        DocItem::Member(m) => spec_render_member(name, m),
    }
}

/// Renders a single named top-level entity: module, composite type,
/// function, or property.
pub fn render_doc_item(name: &str, item: &DocItem) -> (r: String)
    ensures
        r@ == spec_render_doc_item(name@, *item),
{
    match item {
        DocItem::Module(m) => {
            let ghost mm = spec_module_member_list(m.members@);
            let mut mref: Vec<(&String, &Member)> = Vec::new();
            let mut i: usize = 0;
            proof {
                assert(member_pairs_view(mref@) =~= spec_module_member_list(
                    m.members@.subrange(0, 0),
                ));
            }
            while i < m.members.len()
                invariant
                    i <= m.members@.len(),
                    member_pairs_view(mref@) == spec_module_member_list(
                        m.members@.subrange(0, i as int),
                    ),
                decreases m.members@.len() - i,
            {
                let ghost dv0 = member_pairs_view(mref@);
                let ghost pre1 = m.members@.subrange(0, i + 1);
                proof {
                    assert(pre1.drop_last() =~= m.members@.subrange(0, i as int));
                    assert(pre1.last() == m.members@[i as int]);
                }
                match &m.members[i].1 {
                    ModuleMember::Member(mem) => {
                        mref.push((&m.members[i].0, mem));
                        proof {
                            assert(member_pairs_view(mref@) =~= dv0.push(
                                (m.members@[i as int].0@, *mem),
                            ));
                            assert(spec_module_member_list(pre1) =~= dv0.push(
                                (m.members@[i as int].0@, *mem),
                            ));
                        }
                    },
                    ModuleMember::Type(_) => {
                        proof {
                            assert(spec_module_member_list(pre1) =~= dv0);
                        }
                    },
                }
                i = i + 1;
            }
            proof {
                assert(m.members@.subrange(0, m.members@.len() as int) =~= m.members@);
                reveal_strlit("");
                assert(""@ =~= Seq::<char>::empty());
            }
            render_members(name, &m.docs, "", mref, None)
        },
        DocItem::Type(t) => {
            let mut tyname = String::from_str("`");
            tyname.append(name);
            tyname.append("` type");
            let mut pfx = String::from_str(name);
            pfx.append(".");
            let r = render_doc_type(tyname.as_str(), pfx.as_str(), t);
            proof {
                assert(tyname@ =~= "`"@ + name@ + "` type"@);
                assert(pfx@ =~= name@ + "."@);
            }
            r
        },
        DocItem::Member(m) => render_doc_member(name, m),
    }
}

/// Ordering law: a container whose members stand in strictly descending
/// name order renders the same text as the reversed (already ascending)
/// container, and its member blocks appear in ascending name order —
/// joined, as `spec_render_members` states, by the `---` horizontal rule
/// between consecutive blocks.
pub proof fn lemma_reverse_sorted_members(
    name: Seq<char>,
    docs: Option<ProseBlock>,
    prefix: Seq<char>,
    members: Seq<(Seq<char>, Member)>,
    after_summary: Option<Seq<char>>,
)
    requires
        members.len() <= usize::MAX,
        forall|i: int, j: int|
            0 <= i < j < members.len() ==> #[trigger] str_lt(members[j].0, members[i].0),
    ensures
        spec_sorted_blocks(prefix, members) == Seq::new(
            members.len(),
            |k: int|
                spec_render_member(prefix + members.reverse()[k].0, members.reverse()[k].1),
        ),
        spec_render_members(name, docs, prefix, members, after_summary) == spec_render_members(
            name,
            docs,
            prefix,
            members.reverse(),
            after_summary,
        ),
{
    let n = members.len() as int;
    let names = spec_member_names(members);
    let rev = members.reverse();
    let rnames = spec_member_names(rev);
    assert forall|i: int, j: int| 0 <= i < j < n implies #[trigger] str_lt(names[j], names[i]) by {
        assert(names[j] == members[j].0);
        assert(names[i] == members[i].0);
    }
    crate::sorting::lemma_sort_indices_desc(names);
    assert forall|i: int, j: int| 0 <= i < j < n implies #[trigger] str_lt(rnames[i], rnames[j]) by {
        assert(rnames[i] == members[n - 1 - i].0);
        assert(rnames[j] == members[n - 1 - j].0);
        assert(str_lt(members[n - 1 - i].0, members[n - 1 - j].0));
    }
    crate::sorting::lemma_sort_indices_asc(rnames);
    let target = Seq::new(
        members.len(),
        |k: int| spec_render_member(prefix + rev[k].0, rev[k].1),
    );
    let order1 = sort_indices(names);
    assert forall|k: int| 0 <= k < n implies spec_sorted_blocks(prefix, members)[k] == target[k] by {
        assert(order1[k] == (n - 1 - k) as usize);
        assert(rev[k] == members[n - 1 - k]);
    }
    assert(spec_sorted_blocks(prefix, members) =~= target);
    let order2 = sort_indices(rnames);
    assert forall|k: int| 0 <= k < n implies spec_sorted_blocks(prefix, rev)[k] == target[k] by {
        assert(order2[k] == k as usize);
    }
    assert(spec_sorted_blocks(prefix, rev) =~= target);
}

} // verus!
