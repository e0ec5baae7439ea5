//! The resource renderer: resolves the template source directory from the
//! environment mapping, renders template files against that mapping through
//! the mustache engine, and builds the per-step output path and the
//! informational and error messages of the run.

use crate::text::contains_str;
use crate::text::str_eq;
use vstd::prelude::*;
use vstd::string::StrSliceExecFns;
use vstd::string::StringExecFns;

verus! {

/// A template or rendered resource file: its base name and its full text.
#[derive(Debug, PartialEq)]
pub struct ResourceFile {
    pub name: String,
    pub contents: String,
}

/// A rendering failure, with a human-readable account.
#[derive(Debug)]
pub struct RenderError {
    pub message: String,
}

#[verifier::external_type_specification]
#[verifier::external_body]
pub struct ExMustacheError(mustache::Error);

/// The character views of the environment pairs.
pub open spec fn env_views(env: Seq<(String, String)>) -> Seq<(Seq<char>, Seq<char>)> {
    env.map_values(|p: (String, String)| (p.0@, p.1@))
}

/// The text that the template engine renders from a template and an
/// environment mapping: a fixed function of the two, left uninterpreted.
pub uninterp spec fn rendered_of(template: Seq<char>, env: Seq<(Seq<char>, Seq<char>)>) -> Seq<
    char,
>;

/// Whether the template engine accepts (compiles) the template text: a fixed
/// function of it, left uninterpreted.
pub uninterp spec fn mustache_accepts(template: Seq<char>) -> bool;

/// A character of Unicode's White_Space class, the class that the engine's
/// tag-name trimming uses.
pub open spec fn spec_is_space(c: char) -> bool {
    ||| c == '\u{9}'
    ||| c == '\u{a}'
    ||| c == '\u{b}'
    ||| c == '\u{c}'
    ||| c == '\u{d}'
    ||| c == ' '
    ||| c == '\u{85}'
    ||| c == '\u{a0}'
    ||| c == '\u{1680}'
    ||| c == '\u{2000}'
    ||| c == '\u{2001}'
    ||| c == '\u{2002}'
    ||| c == '\u{2003}'
    ||| c == '\u{2004}'
    ||| c == '\u{2005}'
    ||| c == '\u{2006}'
    ||| c == '\u{2007}'
    ||| c == '\u{2008}'
    ||| c == '\u{2009}'
    ||| c == '\u{200a}'
    ||| c == '\u{2028}'
    ||| c == '\u{2029}'
    ||| c == '\u{202f}'
    ||| c == '\u{205f}'
    ||| c == '\u{3000}'
}

/// A dot that could be the whole name of a variable tag: its nearest
/// non-whitespace neighbour on the left is '{' or '&' (a tag opener's last
/// character or an unescape sigil) and on the right is '}' (a tag closer's
/// first character).
pub open spec fn spec_implicit_dot_at(t: Seq<char>, i: int) -> bool {
    &&& 0 <= i < t.len()
    &&& t[i] == '.'
    &&& exists|l: int|
        #![trigger t[l]]
        0 <= l < i && (t[l] == '{' || t[l] == '&') && (forall|k: int|
            l < k < i ==> spec_is_space(t[k]))
    &&& exists|r: int|
        #![trigger t[r]]
        i < r < t.len() && t[r] == '}' && (forall|k: int| i < k < r ==> spec_is_space(t[k]))
}

/// Some dot of the template could be the whole name of a variable tag.
pub open spec fn spec_has_implicit_dot(t: Seq<char>) -> bool {
    exists|i: int| spec_implicit_dot_at(t, i)
}

/// The template stays clear of the engine's tags that leave the
/// variable-substitution language: it never changes tag delimiters and never
/// opens a partial tag (no occurrence of the openers `{{=` and `{{>`; the
/// engine reads the sigil from the raw first character of a tag's content,
/// so each opener appears literally), and no dot of it could be the whole
/// name of a variable tag. A partial tag makes the engine read a file from
/// disk at compile time, and an implicit-dot variable tag resolves to the
/// data map itself, which the engine's renderer rejects by aborting rather
/// than by an error.
pub open spec fn spec_render_safe(t: Seq<char>) -> bool {
    &&& !crate::text::occurs(t, "{{="@)
    &&& !crate::text::occurs(t, "{{>"@)
    &&& !spec_has_implicit_dot(t)
}

/// The template renders cleanly: it is safe to hand to the engine and the
/// engine accepts it.
pub open spec fn spec_renders_ok(t: Seq<char>) -> bool {
    &&& spec_render_safe(t)
    &&& mustache_accepts(t)
}

/// A character of Unicode's White_Space class.
fn is_space_char(c: char) -> (r: bool)
    ensures
        r == spec_is_space(c),
{
    c == '\u{9}' || c == '\u{a}' || c == '\u{b}' || c == '\u{c}' || c == '\u{d}' || c == ' ' || c
        == '\u{85}' || c == '\u{a0}' || c == '\u{1680}' || c == '\u{2000}' || c == '\u{2001}' || c
        == '\u{2002}' || c == '\u{2003}' || c == '\u{2004}' || c == '\u{2005}' || c == '\u{2006}'
        || c == '\u{2007}' || c == '\u{2008}' || c == '\u{2009}' || c == '\u{200a}' || c
        == '\u{2028}' || c == '\u{2029}' || c == '\u{202f}' || c == '\u{205f}' || c == '\u{3000}'
}

/// The position of the nearest non-whitespace character strictly before `i`.
fn prev_non_space(t: &str, i: usize) -> (r: Option<usize>)
    requires
        i <= t@.len(),
        t@.len() <= usize::MAX,
    ensures
        match r {
            Some(l) => l < i && !spec_is_space(t@[l as int]) && (forall|k: int|
                l < k < i ==> spec_is_space(t@[k])),
            None => forall|k: int| 0 <= k < i ==> spec_is_space(t@[k]),
        },
{
    let mut j = i;
    while j > 0
        invariant
            j <= i <= t@.len() <= usize::MAX,
            forall|k: int| j <= k < i ==> spec_is_space(t@[k]),
        decreases j,
    {
        j -= 1;
        if !is_space_char(t.get_char(j)) {
            return Some(j);
        }
    }
    None
}

/// The position of the nearest non-whitespace character strictly after `i`.
fn next_non_space(t: &str, i: usize) -> (r: Option<usize>)
    requires
        i < t@.len(),
        t@.len() <= usize::MAX,
    ensures
        match r {
            Some(p) => i < p < t@.len() && !spec_is_space(t@[p as int]) && (forall|k: int|
                i < k < p ==> spec_is_space(t@[k])),
            None => forall|k: int| i < k < t@.len() ==> spec_is_space(t@[k]),
        },
{
    let n = t.unicode_len();
    let mut j = i + 1;
    while j < n
        invariant
            n == t@.len() <= usize::MAX,
            i < j <= n,
            forall|k: int| i < k < j ==> spec_is_space(t@[k]),
        decreases n - j,
    {
        if !is_space_char(t.get_char(j)) {
            return Some(j);
        }
        j += 1;
    }
    None
}

/// Some dot of the template could be the whole name of a variable tag.
pub fn has_implicit_dot(t: &str) -> (r: bool)
    ensures
        r == spec_has_implicit_dot(t@),
{
    let n = t.unicode_len();
    let mut i: usize = 0;
    while i < n
        invariant
            n == t@.len(),
            i <= n,
            forall|j: int| 0 <= j < i ==> !spec_implicit_dot_at(t@, j),
        decreases n - i,
    {
        if t.get_char(i) == '.' {
            let left = prev_non_space(t, i);
            let right = next_non_space(t, i);
            let left_ok = match left {
                Some(l) => {
                    let cl = t.get_char(l);
                    cl == '{' || cl == '&'
                },
                None => false,
            };
            let right_ok = match right {
                Some(p) => t.get_char(p) == '}',
                None => false,
            };
            if left_ok && right_ok {
                proof {
                    assert(spec_implicit_dot_at(t@, i as int));
                }
                return true;
            }
            proof {
                if !left_ok {
                    assert forall|l: int| !(0 <= l < i && (t@[l] == '{' || t@[l] == '&') && (
                    forall|k: int| l < k < i ==> spec_is_space(t@[k]))) by {
                        if 0 <= l < i && (t@[l] == '{' || t@[l] == '&') && (forall|k: int|
                            l < k < i ==> spec_is_space(t@[k])) {
                            if left is Some {
                                let l0 = left->0 as int;
                                if l < l0 {
                                    assert(spec_is_space(t@[l0]));
                                } else if l > l0 {
                                    assert(spec_is_space(t@[l]));
                                }
                            } else {
                                assert(spec_is_space(t@[l]));
                            }
                        }
                    }
                } else {
                    assert forall|p: int| !(i < p < t@.len() && t@[p] == '}' && (forall|k: int|
                        i < k < p ==> spec_is_space(t@[k]))) by {
                        if i < p < t@.len() && t@[p] == '}' && (forall|k: int|
                            i < k < p ==> spec_is_space(t@[k])) {
                            if right is Some {
                                let p0 = right->0 as int;
                                if p < p0 {
                                    assert(spec_is_space(t@[p]));
                                } else if p > p0 {
                                    assert(spec_is_space(t@[p0]));
                                }
                            } else {
                                assert(spec_is_space(t@[p]));
                            }
                        }
                    }
                }
                assert(!spec_implicit_dot_at(t@, i as int));
            }
        }
        i += 1;
    }
    proof {
        assert forall|j: int| !spec_implicit_dot_at(t@, j) by {
            if 0 <= j < n {
            }
        }
    }
    false
}

/// The template stays clear of the engine's implicit-iterator variable tags.
pub fn render_safe(template: &str) -> (r: bool)
    ensures
        r == spec_render_safe(template@),
{
    proof {
        reveal_strlit("{{=");
        reveal_strlit("{{>");
    }
    !contains_str(template, "{{=") && !contains_str(template, "{{>") && !has_implicit_dot(
        template,
    )
}

/// Relies on mustache::compile_str and mustache::Template::render_data. The
/// `requires` keeps out the inputs on which the engine aborts instead of
/// erring, or reads from disk: a variable tag whose whole name is a dot
/// resolves to the data map itself, which the renderer rejects by panicking,
/// and every such tag holds a dot with only whitespace between it and the
/// tag opener's '{' (or the '&' sigil) and the tag closer's '}'; a partial
/// tag, whose file the engine would load at compile time, needs the literal
/// opener `{{>`; and a template without the literal `{{=` opener cannot
/// change the delimiters these openers are written in. With nothing read
/// from disk, the rendered text depends on the template text and the given
/// pairs alone, and success is exactly the engine's acceptance of the
/// template.
#[verifier::external_body]
fn mustache_render(template: &str, env: &Vec<(String, String)>) -> (r: Result<
    String,
    mustache::Error,
>)
    requires
        spec_render_safe(template@),
    ensures
        r is Ok ==> r->Ok_0@ == rendered_of(template@, env_views(env@)),
        r is Ok <==> mustache_accepts(template@),
{
    let compiled = mustache::compile_str(template)?;
    let mut data = std::collections::HashMap::new();
    for (key, value) in env.iter() {
        data.insert(key.clone(), mustache::Data::String(value.clone()));
    }
    let mut out: Vec<u8> = Vec::new();
    compiled.render_data(&mut out, &mustache::Data::Map(data))?;
    String::from_utf8(out).map_err(|_| mustache::Error::InvalidStr)
}

/// Relies on the Display impl of mustache::Error for a human-readable
/// account of the failure.
#[verifier::external_body]
fn mustache_error_message(e: &mustache::Error) -> (r: String) {
    e.to_string()
}

/// Renders one template against the environment mapping. A template that is
/// not safe to hand to the engine is refused with an error of this library's
/// own; for a safe template, the render succeeds exactly when the engine
/// accepts the template, a success returns exactly the engine's text for
/// these two inputs, and a failure carries the engine's account.
pub fn render_template(template: &str, env: &Vec<(String, String)>) -> (r: Result<
    String,
    RenderError,
>)
    ensures
        r is Ok ==> r->Ok_0@ == rendered_of(template@, env_views(env@)),
        spec_render_safe(template@) ==> (r is Ok <==> mustache_accepts(template@)),
        !spec_render_safe(template@) ==> r is Err,
{
    if !render_safe(template) {
        return Err(
            RenderError {
                message: String::from_str(
                    "template holds a partial, implicit-iterator or set-delimiter tag, which this renderer does not accept",
                ),
            },
        );
    }
    match mustache_render(template, env) {
        Ok(rendered) => Ok(rendered),
        Err(e) => Err(RenderError { message: mustache_error_message(&e) }),
    }
}

/// Rendering is a pure function of the template text and the environment
/// mapping: equal inputs render to equal text, so re-rendering changes
/// nothing.
pub proof fn lemma_render_pure(
    t1: Seq<char>,
    env1: Seq<(Seq<char>, Seq<char>)>,
    t2: Seq<char>,
    env2: Seq<(Seq<char>, Seq<char>)>,
)
    requires
        t1 == t2,
        env1 == env2,
    ensures
        rendered_of(t1, env1) == rendered_of(t2, env2),
{
}

/// Renders every given file against the environment mapping, keeping names
/// and order; when every file renders cleanly the whole step succeeds, and
/// the first failure is fatal and nothing is returned for the step.
pub fn render_resources(files: Vec<ResourceFile>, env: &Vec<(String, String)>) -> (r: Result<
    Vec<ResourceFile>,
    RenderError,
>)
    ensures
        r is Ok ==> r->Ok_0@.len() == files@.len(),
        r is Ok ==> forall|i: int|
            0 <= i < files@.len() ==> (#[trigger] r->Ok_0@[i]).name == files@[i].name
                && r->Ok_0@[i].contents@ == rendered_of(files@[i].contents@, env_views(env@)),
        (forall|i: int|
            0 <= i < files@.len() ==> spec_renders_ok((#[trigger] files@[i]).contents@)) ==> r
            is Ok,
        (exists|i: int|
            0 <= i < files@.len() && spec_render_safe((#[trigger] files@[i]).contents@)
                && !mustache_accepts(files@[i].contents@)) ==> r is Err,
{
    let n = files.len();
    let mut done: Vec<ResourceFile> = Vec::new();
    let mut i: usize = 0;
    while i < n
        invariant
            n == files@.len(),
            i <= n,
            done@.len() == i,
            forall|j: int|
                0 <= j < i ==> (#[trigger] done@[j]).name == files@[j].name && done@[j].contents@
                    == rendered_of(files@[j].contents@, env_views(env@)),
            forall|j: int|
                0 <= j < i ==> !(spec_render_safe((#[trigger] files@[j]).contents@)
                    && !mustache_accepts(files@[j].contents@)),
        decreases n - i,
    {
        let ghost before = done@;
        let file = &files[i];
        match render_template(file.contents.as_str(), env) {
            Ok(rendered) => {
                done.push(ResourceFile { name: file.name.clone(), contents: rendered });
                proof {
                    assert(done@ =~= before + seq![done@[i as int]]);
                }
            },
            Err(e) => {
                proof {
                    assert(!spec_renders_ok(files@[i as int].contents@));
                }
                return Err(e);
            },
        }
        i += 1;
    }
    Ok(done)
}

/// The value of the first pair whose key matches; the document's keys are
/// expected unique, so the first match is the only one.
pub open spec fn spec_env_lookup(env: Seq<(String, String)>, key: Seq<char>) -> Option<Seq<char>>
    decreases env.len(),
{
    if env.len() == 0 {
        None
    } else if env[0].0@ == key {
        Some(env[0].1@)
    } else {
        spec_env_lookup(env.drop_first(), key)
    }
}

/// Finds the first pair whose key matches, returning its position.
pub fn env_lookup(env: &Vec<(String, String)>, key: &str) -> (r: Option<usize>)
    ensures
        match r {
            Some(i) => i < env@.len() && env@[i as int].0@ == key@ && spec_env_lookup(env@, key@)
                == Some(env@[i as int].1@),
            None => spec_env_lookup(env@, key@) is None,
        },
{
    let n = env.len();
    let mut i: usize = 0;
    proof {
        assert(env@.skip(0) =~= env@);
    }
    while i < n
        invariant
            n == env@.len(),
            i <= n,
            spec_env_lookup(env@, key@) == spec_env_lookup(env@.skip(i as int), key@),
        decreases n - i,
    {
        let pair = &env[i];
        if str_eq(pair.0.as_str(), key) {
            proof {
                assert(env@.skip(i as int)[0] == env@[i as int]);
            }
            return Some(i);
        }
        proof {
            assert(env@.skip(i as int)[0] == env@[i as int]);
            assert(env@.skip(i as int).drop_first() =~= env@.skip(i + 1));
        }
        i += 1;
    }
    proof {
        assert(env@.skip(n as int) =~= Seq::empty());
    }
    None
}

/// Under the documented keys-unique invariant, the first-match lookup agrees
/// with a lookup by any matching position — and so with a map that keeps the
/// last of equal keys: the match is unique.
pub proof fn lemma_env_lookup_unique(env: Seq<(String, String)>, key: Seq<char>, i: int)
    requires
        crate::resolve::spec_env_keys_unique(env),
        0 <= i < env.len(),
        env[i].0@ == key,
    ensures
        spec_env_lookup(env, key) == Some(env[i].1@),
    decreases env.len(),
{
    if i > 0 {
        assert(env[0].0@ != env[i].0@);
        let tail = env.drop_first();
        assert forall|a: int, b: int|
            #![trigger tail[a], tail[b]]
            0 <= a < b < tail.len() implies tail[a].0@ != tail[b].0@ by {
            assert(tail[a] == env[a + 1]);
            assert(tail[b] == env[b + 1]);
        }
        assert(tail[i - 1] == env[i]);
        lemma_env_lookup_unique(tail, key, i - 1);
    }
}

/// The resolved template source directory: `{DEPLOYMENT_PATH}/apply` when the
/// reserved key is present in the environment, else the default
/// `deploy/apply` relative to the working directory.
pub open spec fn spec_source_dir(env: Seq<(String, String)>) -> Seq<char> {
    match spec_env_lookup(env, "DEPLOYMENT_PATH"@) {
        Some(p) => p + "/apply"@,
        None => "deploy/apply"@,
    }
}

/// Computes the template source directory for a step's resolved environment.
pub fn find_deploy_resources_dir(env: &Vec<(String, String)>) -> (r: String)
    ensures
        r@ == spec_source_dir(env@),
{
    match env_lookup(env, "DEPLOYMENT_PATH") {
        Some(i) => {
            let mut path = env[i].1.clone();
            path.append("/apply");
            path
        },
        None => String::from_str("deploy/apply"),
    }
}

/// The output directory of one step: the output root with the step id as a
/// subdirectory.
pub fn step_output_dir(output_root: &str, step_id: &str) -> (r: String)
    ensures
        r@ == output_root@ + "/"@ + step_id@,
{
    let mut path = String::from_str(output_root);
    path.append("/");
    path.append(step_id);
    path
}

/// The fatal message for a template source directory that cannot be read,
/// naming the resolved path.
pub fn missing_dir_message(path: &str) -> (r: String)
    ensures
        r@ == "DEPLOYMENT_PATH directory '"@ + path@ + "' does not exist"@,
{
    let mut message = String::from_str("DEPLOYMENT_PATH directory '");
    message.append(path);
    message.append("' does not exist");
    message
}

/// The informational notice for a skipped step, naming its id.
pub fn skip_message(step_id: &str) -> (r: String)
    ensures
        r@ == "Skipping pipeline step with id '"@ + step_id@ + "'"@,
{
    let mut message = String::from_str("Skipping pipeline step with id '");
    message.append(step_id);
    message.append("'");
    message
}

/// The informational notice for a written resource, naming the output path.
pub fn output_message(path: &str) -> (r: String)
    ensures
        r@ == "Outputting resource: '"@ + path@ + "'"@,
{
    let mut message = String::from_str("Outputting resource: '");
    message.append(path);
    message.append("'");
    message
}

} // verus!
