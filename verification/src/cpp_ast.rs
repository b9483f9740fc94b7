//! A small AST for the generated C++ code (file, struct, function,
//! variable) and its renderer.  Each node renders to text through an
//! explicit indentation depth, so rendering is a pure function of the
//! node and the depth.

use vstd::prelude::*;
use vstd::string::StringExecFns;
use crate::diagnostics::{CompilerDiagnostic, DiagView};

verus! {

/// A full C++ file: include directives, then top-level declarations.
#[derive(Debug)]
pub struct File {
    pub includes: Vec<String>,
    pub declarations: Vec<Declaration>,
}

/// A declaration, at the top level or inside a struct.
#[derive(Debug)]
pub enum Declaration {
    Struct(Struct),
    Function(Function),
    Var(Var),
}

/// A C++ struct: a name and its member declarations, in order.
#[derive(Debug)]
pub struct Struct {
    pub name: String,
    pub members: Vec<Declaration>,
}

/// A function or method.
#[derive(Debug)]
pub struct Function {
    pub name: String,
    /// The parameter list and trailing return type, e.g. `"(...) -> ..."`.
    pub signature: String,
    /// A constructor is written without a return type.
    pub is_constructor: bool,
    pub is_static: bool,
    /// The statements of the body.  `None` renders a declaration without a
    /// definition.
    pub statements: Option<Vec<String>>,
}

/// A variable or member declaration.
#[derive(Debug)]
pub struct Var {
    pub ty: String,
    pub name: String,
    pub init: Option<String>,
}

/// The mathematical content of a `Var`.
pub ghost struct VarView {
    pub ty: Seq<char>,
    pub name: Seq<char>,
    pub init: Option<Seq<char>>,
}

/// The mathematical content of a `Function`.
pub ghost struct FunctionView {
    pub name: Seq<char>,
    pub signature: Seq<char>,
    pub is_constructor: bool,
    pub is_static: bool,
    pub statements: Option<Seq<Seq<char>>>,
}

/// The mathematical content of a `Declaration`.
pub ghost enum DeclView {
    Struct(StructView),
    Function(FunctionView),
    Var(VarView),
}

/// The mathematical content of a `Struct`.
pub ghost struct StructView {
    pub name: Seq<char>,
    pub members: Seq<DeclView>,
}

/// The mathematical content of a `File`.
pub ghost struct FileView {
    pub includes: Seq<Seq<char>>,
    pub declarations: Seq<DeclView>,
}

/// The view of one statement list.
pub open spec fn strings_view(s: Seq<String>) -> Seq<Seq<char>> {
    s.map_values(|x: String| x@)
}

pub open spec fn var_view(v: Var) -> VarView {
    VarView {
        ty: v.ty@,
        name: v.name@,
        init: match v.init {
            Some(i) => Some(i@),
            None => None,
        },
    }
}

pub open spec fn function_view(f: Function) -> FunctionView {
    FunctionView {
        name: f.name@,
        signature: f.signature@,
        is_constructor: f.is_constructor,
        is_static: f.is_static,
        statements: match f.statements {
            Some(sts) => Some(strings_view(sts@)),
            None => None,
        },
    }
}

/// The views of `ds[i..]`, in order.
pub open spec fn decls_view(ds: Seq<Declaration>, i: int) -> Seq<DeclView>
    decreases ds, ds.len() - i,
{
    if i < 0 || i >= ds.len() {
        Seq::empty()
    } else {
        seq![decl_view(ds[i])] + decls_view(ds, i + 1)
    }
}

pub open spec fn decl_view(d: Declaration) -> DeclView
    decreases d, 0int,
{
    match d {
        Declaration::Struct(s) => DeclView::Struct(
            StructView { name: s.name@, members: decls_view(s.members@, 0) },
        ),
        Declaration::Function(f) => DeclView::Function(function_view(f)),
        Declaration::Var(v) => DeclView::Var(var_view(v)),
    }
}

pub open spec fn struct_view(s: Struct) -> StructView {
    StructView { name: s.name@, members: decls_view(s.members@, 0) }
}

pub open spec fn file_view_of(f: File) -> FileView {
    FileView { includes: strings_view(f.includes@), declarations: decls_view(f.declarations@, 0) }
}

impl View for Var {
    type V = VarView;

    open spec fn view(&self) -> VarView {
        var_view(*self)
    }
}

impl View for Function {
    type V = FunctionView;

    open spec fn view(&self) -> FunctionView {
        function_view(*self)
    }
}

impl View for Declaration {
    type V = DeclView;

    open spec fn view(&self) -> DeclView {
        decl_view(*self)
    }
}

impl View for Struct {
    type V = StructView;

    open spec fn view(&self) -> StructView {
        struct_view(*self)
    }
}

impl View for File {
    type V = FileView;

    open spec fn view(&self) -> FileView {
        file_view_of(*self)
    }
}

/// Four spaces for every level of structural nesting.
pub open spec fn indent_view(depth: nat) -> Seq<char>
    decreases depth,
{
    if depth == 0 {
        Seq::empty()
    } else {
        indent_view((depth - 1) as nat) + "    "@
    }
}

/// The text of a variable declaration at the given depth.
pub open spec fn render_var(v: VarView, depth: nat) -> Seq<char> {
    indent_view(depth) + v.ty + " "@ + v.name + (match v.init {
        Some(i) => " = "@ + i,
        None => Seq::empty(),
    }) + ";\n"@
}

/// The text of the statements `sts[i..]` of a function body at the given
/// depth: each on its own line, one level deeper than the braces.
pub open spec fn stmts_view(sts: Seq<Seq<char>>, i: int, depth: nat) -> Seq<char>
    decreases sts.len() - i,
{
    if i < 0 || i >= sts.len() {
        Seq::empty()
    } else {
        indent_view(depth) + "    "@ + sts[i] + "\n"@ + stmts_view(sts, i + 1, depth)
    }
}

/// The text of a function at the given depth.
pub open spec fn render_function(f: FunctionView, depth: nat) -> Seq<char> {
    indent_view(depth) + (if f.is_static {
        "static "@
    } else {
        Seq::empty()
    }) + (if !f.is_constructor {
        "auto "@
    } else {
        Seq::empty()
    }) + f.name + " "@ + f.signature + (match f.statements {
        Some(sts) => "{\n"@ + stmts_view(sts, 0, depth) + indent_view(depth) + "}\n"@,
        None => ";\n"@,
    })
}

/// The text of the member declarations `ms[i..]`, each at the given depth.
pub open spec fn render_members(ms: Seq<DeclView>, i: int, depth: nat) -> Seq<char>
    decreases ms, ms.len() - i,
{
    if i < 0 || i >= ms.len() {
        Seq::empty()
    } else {
        render_decl(ms[i], depth) + render_members(ms, i + 1, depth)
    }
}

/// The text of a struct at the given depth: its members one level deeper.
pub open spec fn render_struct(s: StructView, depth: nat) -> Seq<char>
    decreases s, 1int,
{
    indent_view(depth) + "struct "@ + s.name + " {\n"@ + render_members(s.members, 0, depth + 1)
        + indent_view(depth) + "};\n"@
}

/// The text of one declaration at the given depth.
pub open spec fn render_decl(d: DeclView, depth: nat) -> Seq<char>
    decreases d, 2int,
{
    match d {
        DeclView::Struct(s) => render_struct(s, depth),
        DeclView::Function(f) => render_function(f, depth),
        DeclView::Var(v) => render_var(v, depth),
    }
}

/// The text of the include directives `is[i..]`.
pub open spec fn includes_view(is: Seq<Seq<char>>, i: int) -> Seq<char>
    decreases is.len() - i,
{
    if i < 0 || i >= is.len() {
        Seq::empty()
    } else {
        "#include "@ + is[i] + "\n"@ + includes_view(is, i + 1)
    }
}

/// The text of the top-level declarations `ds[i..]`, each preceded by a
/// blank line and rendered at depth zero.
pub open spec fn file_decls_view(ds: Seq<DeclView>, i: int) -> Seq<char>
    decreases ds.len() - i,
{
    if i < 0 || i >= ds.len() {
        Seq::empty()
    } else {
        "\n"@ + render_decl(ds[i], 0) + file_decls_view(ds, i + 1)
    }
}

/// The full text of a file: includes, then declarations.
pub open spec fn render_file(f: FileView) -> Seq<char> {
    includes_view(f.includes, 0) + file_decls_view(f.declarations, 0)
}

/// How deeply structs nest below a declaration; bounds the indentation
/// depth that rendering it can reach.
pub open spec fn decl_height(d: DeclView) -> nat
    decreases d, 1int,
{
    match d {
        DeclView::Struct(s) => 1 + members_height(s.members, 0),
        DeclView::Function(_) => 0,
        DeclView::Var(_) => 0,
    }
}

/// The greatest `decl_height` among `ms[i..]`.
pub open spec fn members_height(ms: Seq<DeclView>, i: int) -> nat
    decreases ms, ms.len() - i,
{
    if i < 0 || i >= ms.len() {
        0
    } else if decl_height(ms[i]) >= members_height(ms, i + 1) {
        decl_height(ms[i])
    } else {
        members_height(ms, i + 1)
    }
}

/// Every member's height is bounded by the height of the member list it
/// sits in.
pub proof fn lemma_member_height(ms: Seq<DeclView>, i: int, j: int)
    requires
        0 <= i <= j < ms.len(),
    ensures
        decl_height(ms[j]) <= members_height(ms, i),
    decreases j - i,
{
    if i < j {
        lemma_member_height(ms, i + 1, j);
    }
}

/// Appends four spaces per level of `depth` to `out`.
pub fn indent(out: &mut String, depth: usize)
    ensures
        final(out)@ == old(out)@ + indent_view(depth as nat),
{
    let mut i: usize = 0;
    while i < depth
        invariant
            i <= depth,
            out@ == old(out)@ + indent_view(i as nat),
        decreases depth - i,
    {
        out.append("    ");
        proof {
            assert(out@ =~= old(out)@ + indent_view((i + 1) as nat));
        }
        i = i + 1;
    }
}

impl Var {
    /// Appends this declaration's text at the given depth to `out`.
    pub fn render(&self, depth: usize, out: &mut String)
        ensures
            final(out)@ == old(out)@ + render_var(self@, depth as nat),
    {
        indent(out, depth);
        out.append(self.ty.as_str());
        out.append(" ");
        out.append(self.name.as_str());
        if let Some(i) = &self.init {
            out.append(" = ");
            out.append(i.as_str());
        }
        out.append(";\n");
        proof {
            assert(out@ =~= old(out)@ + render_var(self@, depth as nat));
        }
    }
}

impl Function {
    /// Appends this function's text at the given depth to `out`.
    #[verifier::rlimit(50)]
    pub fn render(&self, depth: usize, out: &mut String)
        ensures
            final(out)@ == old(out)@ + render_function(self@, depth as nat),
    {
        indent(out, depth);
        if self.is_static {
            out.append("static ");
        }
        if !self.is_constructor {
            out.append("auto ");
        }
        out.append(self.name.as_str());
        out.append(" ");
        out.append(self.signature.as_str());
        let ghost head = old(out)@ + indent_view(depth as nat) + (if self.is_static {
            "static "@
        } else {
            Seq::<char>::empty()
        }) + (if !self.is_constructor {
            "auto "@
        } else {
            Seq::<char>::empty()
        }) + self.name@ + " "@ + self.signature@;
        proof {
            assert(out@ =~= head);
        }
        match &self.statements {
            Some(sts) => {
                out.append("{\n");
                let ghost sv = strings_view(sts@);
                let ghost mid = out@;
                proof {
                    assert(mid =~= head + "{\n"@);
                }
                let mut j: usize = 0;
                while j < sts.len()
                    invariant
                        j <= sts.len(),
                        sv == strings_view(sts@),
                        mid + stmts_view(sv, 0, depth as nat) == out@ + stmts_view(
                            sv,
                            j as int,
                            depth as nat,
                        ),
                    decreases sts.len() - j,
                {
                    indent(out, depth);
                    out.append("    ");
                    out.append(sts[j].as_str());
                    out.append("\n");
                    proof {
                        assert(sv[j as int] == sts@[j as int]@);
                        assert(mid + stmts_view(sv, 0, depth as nat) =~= out@ + stmts_view(
                            sv,
                            j + 1,
                            depth as nat,
                        ));
                    }
                    j = j + 1;
                }
                proof {
                    assert(stmts_view(sv, sts@.len() as int, depth as nat) == Seq::<char>::empty());
                    assert(out@ =~= mid + stmts_view(sv, 0, depth as nat));
                }
                indent(out, depth);
                out.append("}\n");
                proof {
                    assert(out@ =~= head + ("{\n"@ + stmts_view(sv, 0, depth as nat) + indent_view(
                        depth as nat,
                    ) + "}\n"@));
                    assert(render_function(self@, depth as nat) == indent_view(depth as nat) + (
                    if self.is_static {
                        "static "@
                    } else {
                        Seq::<char>::empty()
                    }) + (if !self.is_constructor {
                        "auto "@
                    } else {
                        Seq::<char>::empty()
                    }) + self.name@ + " "@ + self.signature@ + ("{\n"@ + stmts_view(
                        sv,
                        0,
                        depth as nat,
                    ) + indent_view(depth as nat) + "}\n"@));
                    assert(out@ =~= old(out)@ + render_function(self@, depth as nat));
                }
            },
            None => {
                out.append(";\n");
                proof {
                    assert(out@ =~= head + ";\n"@);
                    assert(out@ =~= old(out)@ + render_function(self@, depth as nat));
                }
            },
        }
    }
}

impl Declaration {
    /// Appends this declaration's text at the given depth to `out`.
    pub fn render(&self, depth: usize, out: &mut String)
        requires
            depth + decl_height(self@) < usize::MAX,
        ensures
            final(out)@ == old(out)@ + render_decl(self@, depth as nat),
        decreases *self,
    {
        match self {
            Declaration::Struct(s) => {
                s.render(depth, out);
            },
            Declaration::Function(f) => {
                f.render(depth, out);
            },
            Declaration::Var(v) => {
                v.render(depth, out);
            },
        }
    }
}

impl Struct {
    /// Appends this struct's text at the given depth to `out`; members are
    /// rendered one level deeper.
    pub fn render(&self, depth: usize, out: &mut String)
        requires
            depth + 1 + members_height(self@.members, 0) < usize::MAX,
        ensures
            final(out)@ == old(out)@ + render_struct(self@, depth as nat),
        decreases *self,
    {
        indent(out, depth);
        out.append("struct ");
        out.append(self.name.as_str());
        out.append(" {\n");
        let ghost mv = self@.members;
        let ghost mid = out@;
        let mut j: usize = 0;
        while j < self.members.len()
            invariant
                j <= self.members.len(),
                mv == self@.members,
                depth + 1 + members_height(mv, 0) < usize::MAX,
                mid + render_members(mv, 0, (depth + 1) as nat) == out@ + render_members(
                    mv,
                    j as int,
                    (depth + 1) as nat,
                ),
            decreases self.members.len() - j,
        {
            proof {
                lemma_decls_view_index(self.members@, j as int);
                assert(mv[j as int] == decl_view(self.members@[j as int]));
                lemma_member_height(mv, 0, j as int);
            }
            self.members[j].render(depth + 1, out);
            proof {
                assert(mid + render_members(mv, 0, (depth + 1) as nat) =~= out@ + render_members(
                    mv,
                    j + 1,
                    (depth + 1) as nat,
                ));
            }
            j = j + 1;
        }
        indent(out, depth);
        out.append("};\n");
        proof {
            lemma_decls_view_len(self.members@, 0);
            assert(render_members(mv, self.members@.len() as int, (depth + 1) as nat)
                == Seq::<char>::empty());
            assert(out@ =~= old(out)@ + render_struct(self@, depth as nat));
        }
    }
}

/// True when rendering the file stays within the machine's indentation
/// depth limit; every file this backend builds satisfies it.
pub open spec fn file_renderable(f: FileView) -> bool {
    forall|i: int|
        0 <= i < f.declarations.len() ==> #[trigger] decl_height(f.declarations[i]) < usize::MAX
}

impl File {
    /// The full text of the file: include directives first, then each
    /// top-level declaration preceded by a blank line.
    pub fn render(&self) -> (r: String)
        requires
            file_renderable(self@),
        ensures
            r@ == render_file(self@),
    {
        let mut out = String::new();
        let ghost iv = strings_view(self.includes@);
        let ghost start = out@;
        let mut i: usize = 0;
        while i < self.includes.len()
            invariant
                i <= self.includes.len(),
                iv == strings_view(self.includes@),
                start == Seq::<char>::empty(),
                start + includes_view(iv, 0) == out@ + includes_view(iv, i as int),
            decreases self.includes.len() - i,
        {
            out.append("#include ");
            out.append(self.includes[i].as_str());
            out.append("\n");
            proof {
                assert(iv[i as int] == self.includes@[i as int]@);
                assert(start + includes_view(iv, 0) =~= out@ + includes_view(iv, i + 1));
            }
            i = i + 1;
        }
        proof {
            assert(includes_view(iv, self.includes@.len() as int) == Seq::<char>::empty());
            assert(out@ =~= includes_view(iv, 0));
        }
        let ghost dv = decls_view(self.declarations@, 0);
        let ghost mid = out@;
        let mut j: usize = 0;
        while j < self.declarations.len()
            invariant
                j <= self.declarations.len(),
                dv == decls_view(self.declarations@, 0),
                file_renderable(self@),
                mid + file_decls_view(dv, 0) == out@ + file_decls_view(dv, j as int),
            decreases self.declarations.len() - j,
        {
            proof {
                lemma_decls_view_index(self.declarations@, j as int);
                assert(dv[j as int] == decl_view(self.declarations@[j as int]));
                assert(decl_height(self@.declarations[j as int]) < usize::MAX);
            }
            out.append("\n");
            self.declarations[j].render(0, &mut out);
            proof {
                assert(mid + file_decls_view(dv, 0) =~= out@ + file_decls_view(dv, j + 1));
            }
            j = j + 1;
        }
        proof {
            lemma_decls_view_len(self.declarations@, 0);
            assert(file_decls_view(dv, self.declarations@.len() as int) == Seq::<char>::empty());
            assert(out@ =~= render_file(self@));
        }
        out
    }
}

/// `decls_view` keeps length and order: position `j` holds the view of
/// declaration `j`.
pub proof fn lemma_decls_view_index(ds: Seq<Declaration>, j: int)
    requires
        0 <= j < ds.len(),
    ensures
        decls_view(ds, 0).len() == ds.len(),
        decls_view(ds, 0)[j] == decl_view(ds[j]),
{
    lemma_decls_view_from(ds, 0, j);
}

/// `decls_view(ds, i)` lists the views of `ds[i..]` positionally.
pub proof fn lemma_decls_view_from(ds: Seq<Declaration>, i: int, j: int)
    requires
        0 <= i <= j < ds.len(),
    ensures
        decls_view(ds, i).len() == ds.len() - i,
        decls_view(ds, i)[j - i] == decl_view(ds[j]),
    decreases j - i,
{
    lemma_decls_view_len(ds, i);
    if i < j {
        lemma_decls_view_from(ds, i + 1, j);
    }
}

/// Appending a declaration appends its view.
pub proof fn lemma_decls_view_push(ds: Seq<Declaration>, d: Declaration, i: int)
    requires
        0 <= i <= ds.len(),
    ensures
        decls_view(ds.push(d), i) == decls_view(ds, i) + seq![decl_view(d)],
    decreases ds.len() - i,
{
    if i == ds.len() {
        assert(ds.push(d)[i] == d);
        assert(decls_view(ds.push(d), i + 1) == Seq::<DeclView>::empty());
        assert(decls_view(ds.push(d), i) =~= decls_view(ds, i) + seq![decl_view(d)]);
    } else {
        lemma_decls_view_push(ds, d, i + 1);
        assert(ds.push(d)[i] == ds[i]);
        assert(decls_view(ds.push(d), i) =~= decls_view(ds, i) + seq![decl_view(d)]);
    }
}

/// The length of `decls_view(ds, i)`.
pub proof fn lemma_decls_view_len(ds: Seq<Declaration>, i: int)
    requires
        0 <= i <= ds.len(),
    ensures
        decls_view(ds, i).len() == ds.len() - i,
    decreases ds.len() - i,
{
    if i < ds.len() {
        lemma_decls_view_len(ds, i + 1);
    }
}

/// The contract of the fixed semantic-type-to-C++ mapping: either the
/// native type name, or a diagnostic carrying the declaration's span.
pub trait CppType {
    /// The native C++ type this maps to, when the fixed mapping has one.
    spec fn cpp_type_spec(&self) -> Option<Seq<char>>;

    /// The diagnostic reported when the mapping has none.
    spec fn cpp_type_diag(&self) -> DiagView;

    /// Maps to the native type name, or fails with a diagnostic.
    fn cpp_type(&self) -> (r: Result<&str, CompilerDiagnostic>)
        ensures
            match r {
                Ok(t) => self.cpp_type_spec() == Some(t@),
                Err(d) => self.cpp_type_spec() is None && d@ == self.cpp_type_diag(),
            },
    ;
}

} // verus!
