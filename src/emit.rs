use vstd::prelude::*;

use crate::ci::{detect_spec, platform_name, CIPlatform};
use crate::env::EnvironmentMap;
use crate::lock::{dep_list_view, Dep};
use crate::options::Options;
use crate::order::{insert_text, lemma_sorted_of, lemma_text_order_total, sorted_of, strictly_sorted, text_order};
use crate::text::{
    debug_quote,
    debug_text,
    decimal,
    decimal_text,
    fmt_option_str,
    has_prefix,
    join,
    join_texts,
    option_text,
    strip_prefix,
    texts,
};

verus! {

/// `s` where `enabled` holds, else nothing.
pub open spec fn section(enabled: bool, s: Seq<char>) -> Seq<char> {
    if enabled {
        s
    } else {
        Seq::empty()
    }
}

/// The name of the detected platform, if any.
pub open spec fn detected_name(m: Map<Seq<char>, Seq<char>>) -> Option<Seq<char>> {
    match detect_spec(m) {
        Some(p) => Some(platform_name(p)),
        None => None,
    }
}

/// The declaration of the detected platform.
pub open spec fn ci_text(m: Map<Seq<char>, Seq<char>>) -> Seq<char> {
    "/// The Continuous Integration platform detected during compilation.\n"@
        + "pub const CI_PLATFORM: Option<&'static str> = "@ + option_text(detected_name(m))
        + ";\n"@
}

/// Appends the declaration of the detected platform.
pub fn write_ci(envmap: &EnvironmentMap, out: &mut String)
    ensures
        final(out)@ == old(out)@ + ci_text(envmap@),
{
    let ghost start = out@;
    let p = CIPlatform::detect_from_envmap(envmap);
    let name = match p {
        Some(p) => fmt_option_str(Some(p.name())),
        None => fmt_option_str(None),
    };
    out.append("/// The Continuous Integration platform detected during compilation.\n");
    out.append("pub const CI_PLATFORM: Option<&'static str> = ");
    out.append(name.as_str());
    out.append(";\n");
    assert(out@ =~= start + ci_text(envmap@));
}

/// The prefix of the variables that name enabled features.
pub open spec fn feature_prefix() -> Seq<char> {
    "CARGO_FEATURE_"@
}

/// The features that the environment enables: the names of the variables
/// that start with the feature prefix, without it.
pub open spec fn feature_names(m: Map<Seq<char>, Seq<char>>) -> Set<Seq<char>> {
    Set::new(
        |f: Seq<char>|
            exists|k: Seq<char>|
                #[trigger] m.contains_key(k) && has_prefix(k, feature_prefix()) && f == k.skip(
                    feature_prefix().len() as int,
                ),
    )
}

/// The enabled features in ascending order.
pub open spec fn features_of(m: Map<Seq<char>, Seq<char>>) -> Seq<Seq<char>> {
    sorted_of(feature_names(m), text_order())
}

/// `[..]` around the quoted items, as `{:?}` writes a list of strings.
pub open spec fn quoted_list(items: Seq<Seq<char>>) -> Seq<char> {
    "["@ + join(items.map_values(|s: Seq<char>| debug_text(s)), ", "@) + "]"@
}

/// The declarations of the enabled features.
#[verifier::opaque]
pub open spec fn features_text(m: Map<Seq<char>, Seq<char>>) -> Seq<char> {
    "/// The features that were enabled during compilation.\n"@
        + "pub const FEATURES: [&'static str; "@ + decimal_text(features_of(m).len()) + "] = "@
        + quoted_list(features_of(m)) + ";\n"@
        + "/// The features as a comma-separated string.\n"@
        + "pub const FEATURES_STR: &'static str = \""@ + join(features_of(m), ", "@) + "\";\n"@
}

/// The features that the environment enables, in ascending order.
pub fn enabled_features(envmap: &EnvironmentMap) -> (r: Vec<String>)
    ensures
        texts(r@) == features_of(envmap@),
        strictly_sorted(texts(r@), text_order()),
        texts(r@).to_set() == feature_names(envmap@),
{
    let names = envmap.names();
    let ghost m = envmap@;
    let ghost p = feature_prefix();
    let mut r: Vec<String> = Vec::new();
    let mut i: usize = 0;
    assert(texts(r@).to_set() =~= Set::<Seq<char>>::empty());
    while i < names.len()
        invariant
            i <= names.len(),
            m == envmap@,
            p == feature_prefix(),
            forall|k: Seq<char>|
                m.contains_key(k) <==> exists|j: int| 0 <= j < names.len() && #[trigger] names@[j]@ == k,
            strictly_sorted(texts(r@), text_order()),
            forall|f: Seq<char>|
                texts(r@).to_set().contains(f) <==> exists|j: int|
                    0 <= j < i && has_prefix(#[trigger] names@[j]@, p) && f == names@[j]@.skip(
                        p.len() as int,
                    ),
        decreases names.len() - i,
    {
        let ghost before = texts(r@).to_set();
        match strip_prefix(names[i].as_str(), "CARGO_FEATURE_") {
            Some(f) => {
                let ghost fv = f@;
                insert_text(&mut r, f);
                assert forall|g: Seq<char>|
                    texts(r@).to_set().contains(g) <==> exists|j: int|
                        0 <= j < i + 1 && has_prefix(#[trigger] names@[j]@, p) && g == names@[j]@.skip(
                            p.len() as int,
                        ) by {
                    if g == fv {
                        assert(has_prefix(names@[i as int]@, p));
                    }
                    if exists|j: int|
                        0 <= j < i + 1 && has_prefix(#[trigger] names@[j]@, p) && g == names@[j]@.skip(
                            p.len() as int,
                        ) {
                        let j = choose|j: int|
                            0 <= j < i + 1 && has_prefix(#[trigger] names@[j]@, p) && g
                                == names@[j]@.skip(p.len() as int);
                        if j < i {
                            assert(before.contains(g));
                        }
                    }
                };
            },
            None => {
                assert forall|g: Seq<char>|
                    texts(r@).to_set().contains(g) <==> exists|j: int|
                        0 <= j < i + 1 && has_prefix(#[trigger] names@[j]@, p) && g == names@[j]@.skip(
                            p.len() as int,
                        ) by {
                    if exists|j: int|
                        0 <= j < i + 1 && has_prefix(#[trigger] names@[j]@, p) && g == names@[j]@.skip(
                            p.len() as int,
                        ) {
                        let j = choose|j: int|
                            0 <= j < i + 1 && has_prefix(#[trigger] names@[j]@, p) && g
                                == names@[j]@.skip(p.len() as int);
                        assert(j != i);
                    }
                };
            },
        }
        i = i + 1;
    }
    proof {
        assert forall|f: Seq<char>| texts(r@).to_set().contains(f) <==> feature_names(m).contains(f) by {
            if texts(r@).to_set().contains(f) {
                let j = choose|j: int|
                    0 <= j < names.len() && has_prefix(#[trigger] names@[j]@, p) && f
                        == names@[j]@.skip(p.len() as int);
                assert(m.contains_key(names@[j]@));
            }
            if feature_names(m).contains(f) {
                let k = choose|k: Seq<char>|
                    #[trigger] m.contains_key(k) && has_prefix(k, p) && f == k.skip(p.len() as int);
                let j = choose|j: int| 0 <= j < names.len() && #[trigger] names@[j]@ == k;
                assert(has_prefix(names@[j]@, p));
            }
        };
        assert(texts(r@).to_set() =~= feature_names(m));
        lemma_text_order_total();
        lemma_sorted_of(texts(r@), text_order());
    }
    r
}

/// `[..]` around the quoted strings of `items`.
fn debug_list(items: &Vec<String>) -> (r: String)
    ensures
        r@ == quoted_list(texts(items@)),
{
    let mut parts: Vec<String> = Vec::new();
    let mut i: usize = 0;
    while i < items.len()
        invariant
            i <= items.len(),
            parts.len() == i,
            forall|j: int| 0 <= j < i ==> #[trigger] parts@[j]@ == debug_text(items@[j]@),
        decreases items.len() - i,
    {
        parts.push(debug_quote(items[i].as_str()));
        i = i + 1;
    }
    let body = join_texts(&parts, ", ");
    assert(texts(parts@) =~= texts(items@).map_values(|s: Seq<char>| debug_text(s)));
    let mut r = "[".to_owned();
    r.append(body.as_str());
    r.append("]");
    r
}

/// Appends the declarations of the enabled features.
pub fn write_features(envmap: &EnvironmentMap, out: &mut String)
    ensures
        final(out)@ == old(out)@ + features_text(envmap@),
{
    let ghost start = out@;
    let features = enabled_features(envmap);
    let count = decimal(features.len());
    let list = debug_list(&features);
    let joined = join_texts(&features, ", ");
    out.append("/// The features that were enabled during compilation.\n");
    out.append("pub const FEATURES: [&'static str; ");
    out.append(count.as_str());
    out.append("] = ");
    out.append(list.as_str());
    out.append(";\n");
    out.append("/// The features as a comma-separated string.\n");
    out.append("pub const FEATURES_STR: &'static str = \"");
    out.append(joined.as_str());
    out.append("\";\n");
    assert(features@.len() == texts(features@).len());
    reveal(features_text);
    assert(out@ =~= start + features_text(envmap@));
}

/// A dependency as `{:?}` writes a pair of strings.
pub open spec fn dep_tuple_text(d: Dep) -> Seq<char> {
    "("@ + debug_text(d.0) + ", "@ + debug_text(d.1) + ")"@
}

/// A dependency as its name and version with a space between.
pub open spec fn dep_plain_text(d: Dep) -> Seq<char> {
    d.0 + " "@ + d.1
}

/// The declarations of the dependencies `ds`.
#[verifier::opaque]
pub open spec fn deps_text(ds: Seq<Dep>) -> Seq<char> {
    "/// An array of effective dependencies as documented by `Cargo.lock`.\n"@
        + "pub const DEPENDENCIES: [(&'static str, &'static str); "@ + decimal_text(ds.len())
        + "] = ["@ + join(ds.map_values(|d: Dep| dep_tuple_text(d)), ", "@)
        + "];\n"@ + "/// The effective dependencies as a comma-separated string.\n"@
        + "pub const DEPENDENCIES_STR: &'static str = \""@ + join(
        ds.map_values(|d: Dep| dep_plain_text(d)),
        ", "@,
    ) + "\";\n"@
}

/// Appends the declarations of the dependencies `deps`.
pub fn write_dependencies(deps: &Vec<(String, String)>, out: &mut String)
    ensures
        final(out)@ == old(out)@ + deps_text(dep_list_view(deps@)),
{
    let ghost start = out@;
    let ghost ds = dep_list_view(deps@);
    let mut tuples: Vec<String> = Vec::new();
    let mut plain: Vec<String> = Vec::new();
    let mut i: usize = 0;
    while i < deps.len()
        invariant
            i <= deps.len(),
            ds == dep_list_view(deps@),
            tuples.len() == i,
            plain.len() == i,
            forall|j: int| 0 <= j < i ==> #[trigger] tuples@[j]@ == dep_tuple_text(ds[j]),
            forall|j: int| 0 <= j < i ==> #[trigger] plain@[j]@ == dep_plain_text(ds[j]),
        decreases deps.len() - i,
    {
        let (name, version) = &deps[i];
        let mut t = "(".to_owned();
        t.append(debug_quote(name.as_str()).as_str());
        t.append(", ");
        t.append(debug_quote(version.as_str()).as_str());
        t.append(")");
        tuples.push(t);
        let mut p = name.clone();
        p.append(" ");
        p.append(version.as_str());
        plain.push(p);
        assert(tuples@[i as int]@ =~= dep_tuple_text(ds[i as int]));
        assert(plain@[i as int]@ =~= dep_plain_text(ds[i as int]));
        i = i + 1;
    }
    assert(texts(tuples@) =~= ds.map_values(|d: Dep| dep_tuple_text(d)));
    assert(texts(plain@) =~= ds.map_values(|d: Dep| dep_plain_text(d)));
    let count = decimal(deps.len());
    let list = join_texts(&tuples, ", ");
    let joined = join_texts(&plain, ", ");
    out.append("/// An array of effective dependencies as documented by `Cargo.lock`.\n");
    out.append("pub const DEPENDENCIES: [(&'static str, &'static str); ");
    out.append(count.as_str());
    out.append("] = [");
    out.append(list.as_str());
    out.append("];\n");
    out.append("/// The effective dependencies as a comma-separated string.\n");
    out.append("pub const DEPENDENCIES_STR: &'static str = \"");
    out.append(joined.as_str());
    out.append("\";\n");
    assert(ds.len() == deps.len());
    reveal(deps_text);
    assert(out@ =~= start + deps_text(ds));
}

/// Why the generated module could not be produced.
#[derive(Clone, Debug, PartialEq, Eq)]
pub enum GenError {
    /// A variable that the output needs is not in the environment.
    MissingVariable(String),
    /// The repository could not be read.
    Repository(String),
}

/// The declaration of the text of variable `var` as the constant `name`.
pub open spec fn env_line(
    m: Map<Seq<char>, Seq<char>>,
    name: Seq<char>,
    var: Seq<char>,
    doc: Seq<char>,
) -> Seq<char> {
    "#[doc=\""@ + doc + "\"]\npub const "@ + name + ": &'static str = \""@ + m[var] + "\";\n"@
}

/// Whether every variable that the environment declarations read is there.
pub open spec fn env_complete(m: Map<Seq<char>, Seq<char>>) -> bool {
    &&& m.contains_key("CARGO_PKG_VERSION"@)
    &&& m.contains_key("CARGO_PKG_VERSION_MAJOR"@)
    &&& m.contains_key("CARGO_PKG_VERSION_MINOR"@)
    &&& m.contains_key("CARGO_PKG_VERSION_PATCH"@)
    &&& m.contains_key("CARGO_PKG_VERSION_PRE"@)
    &&& m.contains_key("CARGO_PKG_AUTHORS"@)
    &&& m.contains_key("CARGO_PKG_NAME"@)
    &&& m.contains_key("CARGO_PKG_DESCRIPTION"@)
    &&& m.contains_key("CARGO_PKG_HOMEPAGE"@)
    &&& m.contains_key("TARGET"@)
    &&& m.contains_key("HOST"@)
    &&& m.contains_key("PROFILE"@)
    &&& m.contains_key("RUSTC"@)
    &&& m.contains_key("RUSTDOC"@)
    &&& m.contains_key("OPT_LEVEL"@)
    &&& m.contains_key("NUM_JOBS"@)
    &&& m.contains_key("DEBUG"@)
}

/// `true` where `v` is the text `true`, else `false`.
pub open spec fn bool_text(v: Seq<char>) -> Seq<char> {
    if v == "true"@ {
        "true"@
    } else {
        "false"@
    }
}

/// The declarations of the package metadata and build settings.
#[verifier::opaque]
pub open spec fn env_text(m: Map<Seq<char>, Seq<char>>) -> Seq<char> {
    env_line(m, "PKG_VERSION"@, "CARGO_PKG_VERSION"@, "The full version."@)
        + env_line(m, "PKG_VERSION_MAJOR"@, "CARGO_PKG_VERSION_MAJOR"@, "The major version."@)
        + env_line(m, "PKG_VERSION_MINOR"@, "CARGO_PKG_VERSION_MINOR"@, "The minor version."@)
        + env_line(m, "PKG_VERSION_PATCH"@, "CARGO_PKG_VERSION_PATCH"@, "The patch version."@)
        + env_line(m, "PKG_VERSION_PRE"@, "CARGO_PKG_VERSION_PRE"@, "The pre-release version."@)
        + env_line(m, "PKG_AUTHORS"@, "CARGO_PKG_AUTHORS"@, "A colon-separated list of authors."@)
        + env_line(m, "PKG_NAME"@, "CARGO_PKG_NAME"@, "The name of the package."@)
        + env_line(m, "PKG_DESCRIPTION"@, "CARGO_PKG_DESCRIPTION"@, "The description."@)
        + env_line(m, "PKG_HOMEPAGE"@, "CARGO_PKG_HOMEPAGE"@, "The homepage."@)
        + env_line(m, "TARGET"@, "TARGET"@, "The target triple that was being compiled for."@)
        + env_line(m, "HOST"@, "HOST"@, "The host triple of the rust compiler."@)
        + env_line(
        m,
        "PROFILE"@,
        "PROFILE"@,
        "`release` for release builds, `debug` for other builds."@,
    ) + env_line(m, "RUSTC"@, "RUSTC"@, "The compiler that cargo resolved to use."@)
        + env_line(
        m,
        "RUSTDOC"@,
        "RUSTDOC"@,
        "The documentation generator that cargo resolved to use."@,
    )
        + "#[doc=\"Value of OPT_LEVEL for the profile used during compilation.\"]\npub const OPT_LEVEL: u8 = "@
        + m["OPT_LEVEL"@] + ";\n"@
        + "#[doc=\"The parallelism that was specified during compilation.\"]\npub const NUM_JOBS: u32 = "@
        + m["NUM_JOBS"@] + ";\n"@
        + "#[doc=\"Value of DEBUG for the profile used during compilation.\"]\npub const DEBUG: bool = "@
        + bool_text(m["DEBUG"@]) + ";\n"@
}

/// The value of `var`, or the error that names it.
fn required<'a>(envmap: &'a EnvironmentMap, var: &str) -> (r: Result<&'a String, GenError>)
    ensures
        match r {
            Ok(v) => envmap@.contains_key(var@) && v@ == envmap@[var@],
            Err(e) => !envmap@.contains_key(var@) && (e matches GenError::MissingVariable(k)
                && k@ == var@),
        },
{
    match envmap.get(var) {
        Some(v) => Ok(v),
        None => Err(GenError::MissingVariable(var.to_owned())),
    }
}

/// Appends the declaration of variable `var` as the constant `name`.
fn write_env_str(envmap: &EnvironmentMap, name: &str, var: &str, doc: &str, out: &mut String) -> (r:
    Result<(), GenError>)
    ensures
        match r {
            Ok(()) => envmap@.contains_key(var@) && final(out)@ == old(out)@ + env_line(
                envmap@,
                name@,
                var@,
                doc@,
            ),
            Err(e) => !envmap@.contains_key(var@) && e is MissingVariable,
        },
{
    let ghost start = out@;
    let v = required(envmap, var)?;
    out.append("#[doc=\"");
    out.append(doc);
    out.append("\"]\npub const ");
    out.append(name);
    out.append(": &'static str = \"");
    out.append(v.as_str());
    out.append("\";\n");
    assert(out@ =~= start + env_line(envmap@, name@, var@, doc@));
    Ok(())
}

/// Appends the declarations of the package metadata and build settings;
/// fails, leaving `out` as it was, where a variable they read is missing.
pub fn write_env(envmap: &EnvironmentMap, out: &mut String) -> (r: Result<(), GenError>)
    ensures
        match r {
            Ok(()) => env_complete(envmap@) && final(out)@ == old(out)@ + env_text(envmap@),
            Err(e) => !env_complete(envmap@) && e is MissingVariable && final(out)@ == old(out)@,
        },
{
    let ghost m = envmap@;
    let mut b = String::new();
    write_env_str(envmap, "PKG_VERSION", "CARGO_PKG_VERSION", "The full version.", &mut b)?;
    write_env_str(envmap, "PKG_VERSION_MAJOR", "CARGO_PKG_VERSION_MAJOR", "The major version.", &mut b)?;
    write_env_str(envmap, "PKG_VERSION_MINOR", "CARGO_PKG_VERSION_MINOR", "The minor version.", &mut b)?;
    write_env_str(envmap, "PKG_VERSION_PATCH", "CARGO_PKG_VERSION_PATCH", "The patch version.", &mut b)?;
    write_env_str(
        envmap,
        "PKG_VERSION_PRE",
        "CARGO_PKG_VERSION_PRE",
        "The pre-release version.",
        &mut b,
    )?;
    write_env_str(
        envmap,
        "PKG_AUTHORS",
        "CARGO_PKG_AUTHORS",
        "A colon-separated list of authors.",
        &mut b,
    )?;
    write_env_str(envmap, "PKG_NAME", "CARGO_PKG_NAME", "The name of the package.", &mut b)?;
    write_env_str(envmap, "PKG_DESCRIPTION", "CARGO_PKG_DESCRIPTION", "The description.", &mut b)?;
    write_env_str(envmap, "PKG_HOMEPAGE", "CARGO_PKG_HOMEPAGE", "The homepage.", &mut b)?;
    write_env_str(
        envmap,
        "TARGET",
        "TARGET",
        "The target triple that was being compiled for.",
        &mut b,
    )?;
    write_env_str(envmap, "HOST", "HOST", "The host triple of the rust compiler.", &mut b)?;
    write_env_str(
        envmap,
        "PROFILE",
        "PROFILE",
        "`release` for release builds, `debug` for other builds.",
        &mut b,
    )?;
    write_env_str(envmap, "RUSTC", "RUSTC", "The compiler that cargo resolved to use.", &mut b)?;
    write_env_str(
        envmap,
        "RUSTDOC",
        "RUSTDOC",
        "The documentation generator that cargo resolved to use.",
        &mut b,
    )?;
    let opt_level = required(envmap, "OPT_LEVEL")?;
    let num_jobs = required(envmap, "NUM_JOBS")?;
    let debug = required(envmap, "DEBUG")?;
    b.append(
        "#[doc=\"Value of OPT_LEVEL for the profile used during compilation.\"]\npub const OPT_LEVEL: u8 = ",
    );
    b.append(opt_level.as_str());
    b.append(";\n");
    b.append(
        "#[doc=\"The parallelism that was specified during compilation.\"]\npub const NUM_JOBS: u32 = ",
    );
    b.append(num_jobs.as_str());
    b.append(";\n");
    b.append(
        "#[doc=\"Value of DEBUG for the profile used during compilation.\"]\npub const DEBUG: bool = ",
    );
    if *debug == "true".to_owned() {
        b.append("true");
    } else {
        b.append("false");
    }
    b.append(";\n");
    reveal(env_text);
    assert(b@ =~= env_text(m));
    out.append(b.as_str());
    Ok(())
}

/// The declarations of the compiler and documentation generator versions.
#[verifier::opaque]
pub open spec fn compiler_text(
    rustc: Seq<char>,
    rustdoc: Seq<char>,
    rustc_version: Seq<char>,
    rustdoc_version: Seq<char>,
) -> Seq<char> {
    "/// The output of `"@ + rustc + " -V`\n"@ + "pub const RUSTC_VERSION: &'static str = \""@
        + rustc_version + "\";\n"@ + "/// The output of `"@ + rustdoc + " -V`\n"@
        + "pub const RUSTDOC_VERSION: &'static str = \""@ + rustdoc_version + "\";\n"@
}

/// Whether the paths of the compiler and the documentation generator are in
/// the environment.
pub open spec fn tools_known(m: Map<Seq<char>, Seq<char>>) -> bool {
    m.contains_key("RUSTC"@) && m.contains_key("RUSTDOC"@)
}

/// Appends the declarations of the versions that the compiler and the
/// documentation generator reported; fails, leaving `out` as it was, where
/// their paths are not in the environment.
pub fn write_compiler_version(
    envmap: &EnvironmentMap,
    rustc_version: &str,
    rustdoc_version: &str,
    out: &mut String,
) -> (r: Result<(), GenError>)
    ensures
        match r {
            Ok(()) => tools_known(envmap@) && final(out)@ == old(out)@ + compiler_text(
                envmap@["RUSTC"@],
                envmap@["RUSTDOC"@],
                rustc_version@,
                rustdoc_version@,
            ),
            Err(e) => !tools_known(envmap@) && e is MissingVariable && final(out)@ == old(out)@,
        },
{
    let ghost start = out@;
    let rustc = required(envmap, "RUSTC")?;
    let rustdoc = required(envmap, "RUSTDOC")?;
    out.append("/// The output of `");
    out.append(rustc.as_str());
    out.append(" -V`\n");
    out.append("pub const RUSTC_VERSION: &'static str = \"");
    out.append(rustc_version);
    out.append("\";\n");
    out.append("/// The output of `");
    out.append(rustdoc.as_str());
    out.append(" -V`\n");
    out.append("pub const RUSTDOC_VERSION: &'static str = \"");
    out.append(rustdoc_version);
    out.append("\";\n");
    reveal(compiler_text);
    assert(out@ =~= start + compiler_text(
        envmap@["RUSTC"@],
        envmap@["RUSTDOC"@],
        rustc_version@,
        rustdoc_version@,
    ));
    Ok(())
}

/// A tool's output without its trailing line terminator (`\n` or `\r\n`).
pub open spec fn without_line_end(s: Seq<char>) -> Seq<char> {
    if s.len() >= 2 && s[s.len() - 2] == '\r' && s[s.len() - 1] == '\n' {
        s.take(s.len() - 2)
    } else if s.len() >= 1 && s[s.len() - 1] == '\n' {
        s.take(s.len() - 1)
    } else {
        s
    }
}

/// The version that a tool printed: its output without the trailing line
/// terminator.
pub fn version_from_output(output: &str) -> (r: String)
    ensures
        r@ == without_line_end(output@),
{
    let n = output.unicode_len();
    if n >= 2 && output.get_char(n - 2) == '\r' && output.get_char(n - 1) == '\n' {
        output.substring_char(0, n - 2).to_owned()
    } else if n >= 1 && output.get_char(n - 1) == '\n' {
        output.substring_char(0, n - 1).to_owned()
    } else {
        output.to_owned()
    }
}

/// What looking up the repository's HEAD gave.
#[derive(Clone, Debug, PartialEq, Eq)]
pub enum RepoLookup {
    /// HEAD's tag or short commit id; `None` where there is no repository or
    /// no commit.
    Described(Option<String>),
    /// An object of the repository's history was not found, as in a shallow
    /// clone; the message says what.
    ObjectNotFound(String),
    /// Any other failure to read the repository; the message says what.
    Failed(String),
}

/// The descriptor to write for a repository lookup: a missing object is no
/// error where a Continuous Integration platform was detected, as those
/// clone shallowly; any other failure is one.
pub fn git_descriptor(lookup: RepoLookup, envmap: &EnvironmentMap) -> (r: Result<
    Option<String>,
    GenError,
>)
    ensures
        match lookup {
            RepoLookup::Described(d) => r == Ok::<Option<String>, GenError>(d),
            RepoLookup::ObjectNotFound(msg) => if detect_spec(envmap@) is Some {
                r == Ok::<Option<String>, GenError>(None)
            } else {
                r == Err::<Option<String>, GenError>(GenError::Repository(msg))
            },
            RepoLookup::Failed(msg) => r == Err::<Option<String>, GenError>(
                GenError::Repository(msg),
            ),
        },
{
    match lookup {
        RepoLookup::Described(d) => Ok(d),
        RepoLookup::ObjectNotFound(msg) => {
            if CIPlatform::detect_from_envmap(envmap).is_some() {
                Ok(None)
            } else {
                Err(GenError::Repository(msg))
            }
        },
        RepoLookup::Failed(msg) => Err(GenError::Repository(msg)),
    }
}

/// HEAD's descriptor: the first of the tags that point at HEAD, else HEAD's
/// short commit id.
pub fn head_descriptor(tags_at_head: &Vec<String>, short_id: &str) -> (r: String)
    ensures
        tags_at_head.len() > 0 ==> r@ == tags_at_head@[0]@,
        tags_at_head.len() == 0 ==> r@ == short_id@,
{
    if tags_at_head.len() > 0 {
        tags_at_head[0].clone()
    } else {
        short_id.to_owned()
    }
}

/// What an optional string holds.
pub open spec fn opt_text(o: Option<String>) -> Option<Seq<char>> {
    match o {
        Some(s) => Some(s@),
        None => None,
    }
}

/// The declaration of the repository descriptor.
#[verifier::opaque]
pub open spec fn git_text(desc: Option<Seq<char>>) -> Seq<char> {
    "/// If the crate was compiled from within a git-repository, `GIT_VERSION` contains HEAD's tag. The short commit id is used if HEAD is not tagged.\n"@
        + "pub const GIT_VERSION: Option<&'static str> = "@ + option_text(desc) + ";\n"@
}

/// Appends the declaration of the repository descriptor `desc`.
pub fn write_git_version(desc: &Option<String>, out: &mut String)
    ensures
        final(out)@ == old(out)@ + git_text(opt_text(*desc)),
{
    let ghost start = out@;
    let text = match desc {
        Some(d) => fmt_option_str(Some(d.as_str())),
        None => fmt_option_str(None),
    };
    out.append(
        "/// If the crate was compiled from within a git-repository, `GIT_VERSION` contains HEAD's tag. The short commit id is used if HEAD is not tagged.\n",
    );
    out.append("pub const GIT_VERSION: Option<&'static str> = ");
    out.append(text.as_str());
    out.append(";\n");
    reveal(git_text);
    assert(out@ =~= start + git_text(opt_text(*desc)));
}

/// The declaration of the build time `stamp`.
#[verifier::opaque]
pub open spec fn time_text(stamp: Seq<char>) -> Seq<char> {
    "/// The built-time in RFC822, UTC\n"@ + "pub const BUILT_TIME_UTC: &'static str = \""@ + stamp
        + "\";\n"@
}

/// Appends the declaration of the build time `stamp`.
pub fn write_time(stamp: &str, out: &mut String)
    ensures
        final(out)@ == old(out)@ + time_text(stamp@),
{
    let ghost start = out@;
    out.append("/// The built-time in RFC822, UTC\n");
    out.append("pub const BUILT_TIME_UTC: &'static str = \"");
    out.append(stamp);
    out.append("\";\n");
    reveal(time_text);
    assert(out@ =~= start + time_text(stamp@));
}

/// What the generated module reports besides the environment: gathered by
/// running tools, reading the repository and the lock document, and reading
/// the clock.
pub struct BuildInfo {
    /// The version that the compiler reported.
    pub rustc_version: String,
    /// The version that the documentation generator reported.
    pub rustdoc_version: String,
    /// HEAD's tag or short commit id, if any.
    pub git_version: Option<String>,
    /// The dependency list of the lock document.
    pub dependencies: Vec<(String, String)>,
    /// The time of the build, UTC.
    pub built_time: String,
}

/// The comment that opens the generated declarations.
pub open spec fn header_text() -> Seq<char> {
    "//\n// EVERYTHING BELOW THIS POINT WAS AUTO-GENERATED DURING COMPILATION. DO NOT MODIFY.\n//\n"@
}

/// The comment that closes the generated declarations.
pub open spec fn footer_text() -> Seq<char> {
    "//\n// EVERYTHING ABOVE THIS POINT WAS AUTO-GENERATED DURING COMPILATION. DO NOT MODIFY.\n//\n"@
}

/// Whether the environment holds every variable that the enabled sections
/// read.
pub open spec fn inputs_complete(o: Options, m: Map<Seq<char>, Seq<char>>) -> bool {
    (o.env ==> env_complete(m)) && (o.compiler ==> tools_known(m))
}

/// The generated text up to the build time: the opening comment, then the
/// enabled sections in their fixed order.
pub open spec fn text_before_time(o: Options, m: Map<Seq<char>, Seq<char>>, info: BuildInfo) -> Seq<
    char,
> {
    header_text() + section(o.ci, ci_text(m)) + section(o.env, env_text(m)) + section(
        o.features,
        features_text(m),
    ) + section(
        o.compiler,
        compiler_text(m["RUSTC"@], m["RUSTDOC"@], info.rustc_version@, info.rustdoc_version@),
    ) + section(o.git, git_text(opt_text(info.git_version))) + section(
        o.deps,
        deps_text(dep_list_view(info.dependencies@)),
    )
}

/// The generated text.
pub open spec fn module_text(o: Options, m: Map<Seq<char>, Seq<char>>, info: BuildInfo) -> Seq<
    char,
> {
    text_before_time(o, m, info) + section(o.time, time_text(info.built_time@)) + footer_text()
}

/// The generated module for `options`, the environment `envmap` and what
/// `info` gathered; fails where a variable that an enabled section reads is
/// missing.
pub fn render_built_file(options: &Options, envmap: &EnvironmentMap, info: &BuildInfo) -> (r: Result<
    String,
    GenError,
>)
    ensures
        match r {
            Ok(text) => inputs_complete(*options, envmap@) && text@ == module_text(
                *options,
                envmap@,
                *info,
            ),
            Err(e) => !inputs_complete(*options, envmap@) && e is MissingVariable,
        },
{
    let ghost m = envmap@;
    let ghost o = *options;
    let mut out = "//\n// EVERYTHING BELOW THIS POINT WAS AUTO-GENERATED DURING COMPILATION. DO NOT MODIFY.\n//\n".to_owned();
    assert(out@ == header_text());
    if options.ci {
        write_ci(envmap, &mut out);
    }
    assert(out@ =~= header_text() + section(o.ci, ci_text(m)));
    if options.env {
        write_env(envmap, &mut out)?;
    }
    assert(out@ =~= header_text() + section(o.ci, ci_text(m)) + section(o.env, env_text(m)));
    if options.features {
        write_features(envmap, &mut out);
    }
    let ghost s3 = out@;
    assert(s3 =~= header_text() + section(o.ci, ci_text(m)) + section(o.env, env_text(m)) + section(o.features, features_text(m)));
    if options.compiler {
        write_compiler_version(
            envmap,
            info.rustc_version.as_str(),
            info.rustdoc_version.as_str(),
            &mut out,
        )?;
    }
    let ghost s4 = out@;
    assert(s4 =~= s3 + section(
        o.compiler,
        compiler_text(m["RUSTC"@], m["RUSTDOC"@], info.rustc_version@, info.rustdoc_version@),
    ));
    if options.git {
        write_git_version(&info.git_version, &mut out);
    }
    let ghost s5 = out@;
    assert(s5 =~= s4 + section(o.git, git_text(opt_text(info.git_version))));
    if options.deps {
        write_dependencies(&info.dependencies, &mut out);
    }
    assert(out@ =~= text_before_time(o, m, *info));
    if options.time {
        write_time(info.built_time.as_str(), &mut out);
    }
    assert(out@ =~= text_before_time(o, m, *info) + section(o.time, time_text(info.built_time@)));
    out.append("//\n// EVERYTHING ABOVE THIS POINT WAS AUTO-GENERATED DURING COMPILATION. DO NOT MODIFY.\n//\n");
    assert(out@ =~= module_text(o, m, *info));
    Ok(out)
}

/// Generating twice from the same options, environment and gathered
/// information gives texts that agree everywhere but in the declaration of
/// the build time, and that are equal where that declaration is not written.
pub proof fn lemma_regeneration_differs_only_in_time(
    o: Options,
    m: Map<Seq<char>, Seq<char>>,
    a: BuildInfo,
    b: BuildInfo,
)
    requires
        a.rustc_version@ == b.rustc_version@,
        a.rustdoc_version@ == b.rustdoc_version@,
        opt_text(a.git_version) == opt_text(b.git_version),
        dep_list_view(a.dependencies@) == dep_list_view(b.dependencies@),
    ensures
        text_before_time(o, m, a) == text_before_time(o, m, b),
        module_text(o, m, a) == text_before_time(o, m, a) + section(o.time, time_text(a.built_time@))
            + footer_text(),
        module_text(o, m, b) == text_before_time(o, m, a) + section(o.time, time_text(b.built_time@))
            + footer_text(),
        !o.time ==> module_text(o, m, a) == module_text(o, m, b),
{
}

/// Where the platform is written, the generated text names the detected
/// platform right after the opening comment.
pub proof fn lemma_ci_line_names_platform(
    o: Options,
    m: Map<Seq<char>, Seq<char>>,
    info: BuildInfo,
    p: CIPlatform,
)
    requires
        o.ci,
        detect_spec(m) == Some(p),
    ensures
        module_text(o, m, info).subrange(
            header_text().len() as int,
            (header_text().len() + ci_text(m).len()) as int,
        ) == ci_text(m),
        ci_text(m) == "/// The Continuous Integration platform detected during compilation.\n"@
            + "pub const CI_PLATFORM: Option<&'static str> = "@ + "Some(\""@ + platform_name(p)
            + "\")"@ + ";\n"@,
{
    let h = header_text();
    let c = ci_text(m);
    let rest = module_text(o, m, info).subrange((h.len() + c.len()) as int, module_text(o, m, info).len() as int);
    assert(module_text(o, m, info) =~= h + c + rest);
    assert(module_text(o, m, info).subrange(h.len() as int, (h.len() + c.len()) as int) =~= c);
    assert(c =~= "/// The Continuous Integration platform detected during compilation.\n"@
        + "pub const CI_PLATFORM: Option<&'static str> = "@ + "Some(\""@ + platform_name(p)
        + "\")"@ + ";\n"@);
}

} // verus!
