//! Constants of a Lean environment, and how a declaration is shown.
use vstd::prelude::*;

use leo3::meta::{LeanConstantInfo, LeanEnvironment, LeanName};
use leo3::{LeanError, LeanUnbound};

use crate::error::ReplError;
use crate::repl::{lean_failure, Repl, ReplModel, Running};
use crate::text::texts;

verus! {

/// What kind of declaration a constant is.
#[derive(Clone, Copy, Debug, PartialEq, Eq, Structural)]
pub enum ConstantKind {
    Axiom,
    Definition,
    Theorem,
    Opaque,
    Quot,
    Inductive,
    Constructor,
    Recursor,
}

/// The error type of `leo3`.
#[verifier::external_type_specification]
#[verifier::external_body]
pub struct ExLeanError(leo3::LeanError);

/// The thread-safe reference of `leo3` to a Lean object.
#[verifier::external_type_specification]
#[verifier::external_body]
#[verifier::reject_recursive_types(T)]
pub struct ExLeanUnbound<T>(leo3::LeanUnbound<T>);

/// The environment type of `leo3`, an immutable collection of declarations.
#[verifier::external_type_specification]
#[verifier::external_body]
pub struct ExLeanEnvironment(leo3::meta::LeanEnvironment);

/// The place of the first dot of `path`, or its length.
pub open spec fn first_dot(path: Seq<char>) -> nat
    decreases path.len(),
{
    if path.len() == 0 || path[0] == '.' {
        0
    } else {
        1 + first_dot(path.drop_first())
    }
}

/// The components of a dot-separated name; empty ones do not count.
pub open spec fn name_components(path: Seq<char>) -> Seq<Seq<char>>
    decreases path.len(),
{
    let k = first_dot(path) as int;
    if path.len() == 0 {
        Seq::empty()
    } else if k == 0 {
        name_components(path.drop_first())
    } else if k >= path.len() {
        seq![path]
    } else {
        seq![path.take(k)] + name_components(path.skip(k))
    }
}

/// The constants of an environment whose names are made of string components, each with its
/// kind.
pub uninterp spec fn constants(env: LeanUnbound<LeanEnvironment>) -> Map<
    Seq<Seq<char>>,
    ConstantKind,
>;

/// What looking a name up in an environment gives.
pub open spec fn lookup(env: LeanUnbound<LeanEnvironment>, name: Seq<char>) -> Option<
    ConstantKind,
> {
    let key = name_components(name);
    if constants(env).dom().contains(key) {
        Some(constants(env)[key])
    } else {
        None
    }
}

/// What the `Display` of a `leo3` error writes.
pub uninterp spec fn error_text(e: LeanError) -> Seq<char>;

/// What is said of a text that is no name because it holds a NUL character.
pub open spec fn nul_text() -> Seq<char> {
    "conversion error: String contains null byte"@
}

/// Looks a constant up with `leo3::meta::LeanEnvironment::find`, under the name that
/// `LeanName::from_components` makes of the text, and reads its kind with
/// `LeanConstantInfo::kind`. Claimed: the lookup fails exactly for a text with a NUL character,
/// which cannot be handed over as a C string, and the error says so; otherwise its result is what
/// the environment holds under the dot-separated components.
#[verifier::external_body]
fn find_constant(env: &LeanUnbound<LeanEnvironment>, name: &str) -> (r: Result<
    Option<ConstantKind>,
    LeanError,
>)
    ensures
        r is Err <==> name@.contains('\0'),
        r matches Err(e) ==> error_text(e) == nul_text(),
        r matches Ok(found) ==> found == (if constants(*env).dom().contains(name_components(name@)) {
            Some(constants(*env)[name_components(name@)])
        } else {
            None
        }),
{
    leo3::with_lean(|lean| {
        let key = LeanName::from_components(lean, name)?;
        let found = LeanEnvironment::find(&env.bind(lean), &key)?;
        Ok(found.map(|info| match LeanConstantInfo::kind(&info) {
            leo3::meta::ConstantKind::Axiom => ConstantKind::Axiom,
            leo3::meta::ConstantKind::Definition => ConstantKind::Definition,
            leo3::meta::ConstantKind::Theorem => ConstantKind::Theorem,
            leo3::meta::ConstantKind::Opaque => ConstantKind::Opaque,
            leo3::meta::ConstantKind::Quot => ConstantKind::Quot,
            leo3::meta::ConstantKind::Inductive => ConstantKind::Inductive,
            leo3::meta::ConstantKind::Constructor => ConstantKind::Constructor,
            leo3::meta::ConstantKind::Recursor => ConstantKind::Recursor,
        }))
    })
}

/// The text of a `leo3` error, by the `Display` of `LeanError`. Claimed: it depends on the error
/// alone.
#[verifier::external_body]
pub(crate) fn lean_error_text(e: &LeanError) -> (r: String)
    ensures
        r@ == error_text(*e),
{
    e.to_string()
}

/// Whether a term is a bare constant of the environment. A text that is no name is not.
pub fn names_constant(env: &LeanUnbound<LeanEnvironment>, term: &str) -> (r: bool)
    ensures
        r == (!term@.contains('\0') && lookup(*env, term@) is Some),
        r == (!term@.contains('\0') && constants(*env).dom().contains(name_components(term@))),
{
    match find_constant(env, term) {
        Ok(found) => found.is_some(),
        Err(_) => false,
    }
}

/// The kind of the constant that an `inspect` query names, given what the lookup found.
pub fn inspected_kind(found: Option<ConstantKind>, name: &str) -> (r: Result<
    ConstantKind,
    ReplError,
>)
    ensures
        match found {
            Some(kind) => r == Ok::<ConstantKind, ReplError>(kind),
            None => r matches Err(ReplError::UnknownConstant { name: asked }) && asked@ == name@,
        },
{
    match found {
        Some(kind) => Ok(kind),
        None => Err(ReplError::UnknownConstant { name: name.to_owned() }),
    }
}

impl ConstantKind {
    /// The keyword that a declaration of this kind is shown with.
    pub open spec fn label_text(self) -> Seq<char> {
        match self {
            ConstantKind::Inductive => "inductive"@,
            ConstantKind::Axiom => "axiom"@,
            ConstantKind::Opaque => "opaque"@,
            ConstantKind::Theorem => "theorem"@,
            _ => "def"@,
        }
    }

    /// The keyword that a declaration of this kind is shown with.
    pub fn label(self) -> (r: &'static str)
        ensures
            r@ == self.label_text(),
    {
        match self {
            ConstantKind::Inductive => "inductive",
            ConstantKind::Axiom => "axiom",
            ConstantKind::Opaque => "opaque",
            ConstantKind::Theorem => "theorem",
            ConstantKind::Definition => "def",
            ConstantKind::Constructor => "def",
            ConstantKind::Recursor => "def",
            ConstantKind::Quot => "def",
        }
    }
}

/// How a declaration is shown: its kind, name and type, and its value on a line of its own if it
/// has one.
pub open spec fn declaration_text(
    kind: ConstantKind,
    name: Seq<char>,
    rendered: Seq<Seq<char>>,
) -> Seq<char> {
    let head = kind.label_text() + " "@ + name + " : "@ + rendered[0];
    if rendered.len() > 1 {
        head + " :=\n"@ + rendered[1]
    } else {
        head
    }
}

/// Shows a declaration. `rendered` holds its type and then its value, if it has one, as Lean
/// prints them.
pub fn render_declaration(kind: ConstantKind, name: &str, rendered: &Vec<String>) -> (r: String)
    requires
        rendered@.len() >= 1,
    ensures
        r@ == declaration_text(kind, name@, texts(rendered@)),
{
    let head = kind.label().to_owned().concat(" ").concat(name).concat(" : ").concat(
        rendered[0].as_str(),
    );
    if rendered.len() > 1 {
        head.concat(" :=\n").concat(rendered[1].as_str())
    } else {
        head
    }
}

/// The answer to an `inspect` query, given what the lookup found and what came of printing the
/// declaration. An unknown constant is refused before anything printed counts.
pub fn inspected(
    found: Option<ConstantKind>,
    name: &str,
    rendered: Result<Vec<String>, String>,
) -> (r: Result<String, ReplError>)
    requires
        found is Some && rendered is Ok ==> rendered->Ok_0@.len() >= 1,
    ensures
        match (found, rendered) {
            (None, _) => r matches Err(ReplError::UnknownConstant { name: asked }) && asked@
                == name@,
            (Some(_), Err(message)) => r matches Err(e) && lean_failure(e, message@),
            (Some(kind), Ok(list)) => r matches Ok(text) && text@ == declaration_text(
                kind,
                name@,
                texts(list@),
            ),
        },
{
    match inspected_kind(found, name) {
        Ok(kind) => match rendered {
            Ok(list) => Ok(render_declaration(kind, name, &list)),
            Err(message) => Err(ReplError::Lean { message }),
        },
        Err(e) => Err(e),
    }
}

impl Repl<LeanUnbound<LeanEnvironment>> {
    /// Whether the session's environment has a constant of this name. A text with a NUL character
    /// is no name.
    pub fn env_has_const(&self, name: &str) -> (r: Result<bool, ReplError>)
        ensures
            match r {
                Ok(found) => {
                    &&& !name@.contains('\0')
                    &&& found == lookup(self@.env.environment, name@) is Some
                    &&& found == constants(self@.env.environment).dom().contains(
                        name_components(name@),
                    )
                },
                Err(e) => name@.contains('\0') && lean_failure(e, nul_text()),
            },
    {
        match find_constant(self.environment(), name) {
            Ok(found) => Ok(found.is_some()),
            Err(e) => Err(ReplError::Lean { message: lean_error_text(&e) }),
        }
    }

    /// The kind of the constant that an `inspect` query names; an unknown constant is refused.
    pub fn inspect_kind(&self, name: &str) -> (r: Result<ConstantKind, ReplError>)
        ensures
            match r {
                Ok(kind) => {
                    &&& !name@.contains('\0')
                    &&& lookup(self@.env.environment, name@) == Some(kind)
                    &&& constants(self@.env.environment).contains_pair(name_components(name@), kind)
                },
                Err(ReplError::UnknownConstant { name: asked }) => asked@ == name@
                    && !name@.contains('\0') && lookup(self@.env.environment, name@) is None
                    && !constants(self@.env.environment).dom().contains(name_components(name@)),
                Err(e) => name@.contains('\0') && lean_failure(e, nul_text()),
            },
    {
        match find_constant(self.environment(), name) {
            Ok(found) => inspected_kind(found, name),
            Err(e) => Err(ReplError::Lean { message: lean_error_text(&e) }),
        }
    }

    /// The answer to an `inspect` query, from what came of printing the type of the declaration and
    /// its value, if it has one. A text that is no name and an unknown constant are refused before
    /// anything printed counts.
    pub fn inspect(&self, name: &str, rendered: Result<Vec<String>, String>) -> (r: Result<
        String,
        ReplError,
    >)
        requires
            rendered is Ok ==> rendered->Ok_0@.len() >= 1,
        ensures
            ({
                let found = lookup(self@.env.environment, name@);
                if name@.contains('\0') {
                    r matches Err(e) && lean_failure(e, nul_text())
                } else if found is None {
                    r matches Err(ReplError::UnknownConstant { name: asked }) && asked@ == name@
                } else {
                    match rendered {
                        Ok(list) => r matches Ok(text) && text@ == declaration_text(
                            found->0,
                            name@,
                            texts(list@),
                        ),
                        Err(message) => r matches Err(e) && lean_failure(e, message@),
                    }
                }
            }),
    {
        match find_constant(self.environment(), name) {
            Ok(found) => inspected(found, name, rendered),
            Err(e) => Err(ReplError::Lean { message: lean_error_text(&e) }),
        }
    }
}

/// What a command, a goal or a tactic installs is what the next query reads: a lookup after it
/// finds what the environment that it left holds, whatever the session's environment was before.
pub proof fn law_queries_read_what_was_installed(
    repl: ReplModel<LeanUnbound<LeanEnvironment>>,
    running: Running<LeanUnbound<LeanEnvironment>>,
    added: crate::repl::StateModel,
    name: Seq<char>,
)
    ensures
        lookup(repl.installed(running).env.environment, name) == lookup(running.environment, name),
        lookup(repl.installed(running).with_state(added).env.environment, name) == lookup(
            running.environment,
            name,
        ),
{
}

/// A lookup finds what the environment holds under the components of the name: it gives a kind
/// exactly where that name is mapped to it, and nothing exactly where the name is not mapped.
pub proof fn law_lookup_reads_the_environment(
    env: LeanUnbound<LeanEnvironment>,
    name: Seq<char>,
    kind: ConstantKind,
)
    ensures
        lookup(env, name) == Some(kind) <==> constants(env).contains_pair(
            name_components(name),
            kind,
        ),
        lookup(env, name) is None <==> !constants(env).dom().contains(name_components(name)),
{
}

/// Names with the same components are looked up alike, in any environment.
pub proof fn law_lookup_goes_by_components(
    env: LeanUnbound<LeanEnvironment>,
    a: Seq<char>,
    b: Seq<char>,
)
    requires
        name_components(a) == name_components(b),
    ensures
        lookup(env, a) == lookup(env, b),
{
}

/// The first dot of a text is where it says: nothing before it is a dot.
proof fn lemma_first_dot(path: Seq<char>)
    ensures
        first_dot(path) <= path.len(),
        forall|j: int| 0 <= j < first_dot(path) ==> path[j] != '.',
        first_dot(path) < path.len() ==> path[first_dot(path) as int] == '.',
    decreases path.len(),
{
    if path.len() > 0 && path[0] != '.' {
        let rest = path.drop_first();
        lemma_first_dot(rest);
        assert forall|j: int| 0 <= j < first_dot(path) implies path[j] != '.' by {
            if j > 0 {
                assert(path[j] == rest[j - 1]);
            }
        }
    }
}

/// The place of the first dot is fixed by where dots are.
proof fn lemma_first_dot_is(path: Seq<char>, k: int)
    requires
        0 <= k <= path.len(),
        forall|j: int| 0 <= j < k ==> path[j] != '.',
        k == path.len() || path[k] == '.',
    ensures
        first_dot(path) == k,
{
    lemma_first_dot(path);
    let found = first_dot(path) as int;
    if found < k {
        assert(path[found] == '.');
    } else if k < found {
        assert(path[k] != '.');
    }
}

/// The components of a name are what stands between its dots. The empty text has none, a text
/// without a dot is its own single component, and a dot parts the components before it from
/// those after it.
pub proof fn law_components_stand_between_dots(a: Seq<char>, b: Seq<char>)
    ensures
        name_components(Seq::empty()) == Seq::<Seq<char>>::empty(),
        a.len() > 0 && !a.contains('.') ==> name_components(a) == seq![a],
        name_components(a + seq!['.'] + b) == name_components(a) + name_components(b),
    decreases a.len(),
{
    if a.len() > 0 && !a.contains('.') {
        assert forall|j: int| 0 <= j < a.len() implies a[j] != '.' by {
            if a[j] == '.' {
                assert(a.contains(a[j]));
            }
        }
        lemma_first_dot_is(a, a.len() as int);
    }
    let path = a + seq!['.'] + b;
    if a.len() == 0 {
        assert(path[0] == '.');
        assert(path.drop_first() =~= b);
        assert(first_dot(path) == 0);
        assert(name_components(a) =~= Seq::empty());
        assert(name_components(a) + name_components(b) =~= name_components(b));
    } else if a[0] == '.' {
        assert(path[0] == '.');
        assert(first_dot(path) == 0 && first_dot(a) == 0);
        assert(path.drop_first() =~= a.drop_first() + seq!['.'] + b);
        law_components_stand_between_dots(a.drop_first(), b);
    } else {
        lemma_first_dot(a);
        let k = first_dot(a) as int;
        assert(k > 0);
        assert forall|j: int| 0 <= j < k implies path[j] != '.' by {
            assert(path[j] == a[j]);
        }
        if k == a.len() {
            assert(path[k] == '.');
            lemma_first_dot_is(path, k);
            assert(path.take(k) =~= a);
            let rest = path.skip(k);
            assert(rest =~= seq!['.'] + b);
            assert(rest[0] == '.');
            assert(first_dot(rest) == 0);
            assert(rest.drop_first() =~= b);
            assert(name_components(rest) == name_components(b));
            assert(name_components(a) == seq![a]);
        } else {
            assert(path[k] == a[k]);
            lemma_first_dot_is(path, k);
            assert(path.take(k) =~= a.take(k));
            assert(path.skip(k) =~= a.skip(k) + seq!['.'] + b);
            law_components_stand_between_dots(a.skip(k), b);
            assert(name_components(path) == seq![a.take(k)] + name_components(path.skip(k)));
            assert(name_components(a) == seq![a.take(k)] + name_components(a.skip(k)));
            assert(name_components(path) =~= name_components(a) + name_components(b));
        }
    }
}

/// The keyword of each kind of declaration.
pub proof fn law_labels_read()
    ensures
        ConstantKind::Inductive.label_text() == "inductive"@,
        ConstantKind::Axiom.label_text() == "axiom"@,
        ConstantKind::Opaque.label_text() == "opaque"@,
        ConstantKind::Theorem.label_text() == "theorem"@,
        ConstantKind::Definition.label_text() == "def"@,
        ConstantKind::Constructor.label_text() == "def"@,
        ConstantKind::Recursor.label_text() == "def"@,
        ConstantKind::Quot.label_text() == "def"@,
{
}

/// A declaration reads `kind name : type`, and a value follows after ` :=` on a line of its own.
pub proof fn law_declarations_read(
    kind: ConstantKind,
    name: Seq<char>,
    ty: Seq<char>,
    value: Seq<char>,
    rest: Seq<Seq<char>>,
)
    ensures
        declaration_text(kind, name, seq![ty]) == kind.label_text() + " "@ + name + " : "@ + ty,
        declaration_text(kind, name, seq![ty, value] + rest) == kind.label_text() + " "@ + name
            + " : "@ + ty + " :=\n"@ + value,
        nul_text() == "conversion error: String contains null byte"@,
{
}

} // verus!
