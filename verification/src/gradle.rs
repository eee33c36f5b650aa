//! Rewriting of the generated Gradle build files: repository lists are
//! inserted after the first `repositories {` opener, and the application
//! module's build file gets its namespace, application identifier, output
//! file name, ABI filters and Kotlin options written in.

use vstd::prelude::*;

use crate::text::{
    joined_with, render_lines, spec_lines, split_lines, starts_with, str_eq, str_starts_with,
    trim, trim_start, trimmed, trimmed_start,
};

verus! {


/// A repository turned into the Gradle line that declares it.
pub open spec fn maven_line(repo: Seq<char>) -> Seq<char> {
    "        maven { url = uri(\""@ + repo + "\") }"@
}

/// The declaration lines for a whole repository list.
pub open spec fn maven_lines(repos: Seq<Seq<char>>) -> Seq<Seq<char>> {
    repos.map_values(|r: Seq<char>| maven_line(r))
}

/// Whether this line opens a repositories block.
pub open spec fn is_repos_open(l: Seq<char>) -> bool {
    trimmed(l) == "repositories {"@
}

/// Index of the first repositories opener at or after `a`, or the number
/// of lines if none.
pub open spec fn repos_open_scan(lines: Seq<Seq<char>>, a: int) -> int
    decreases lines.len() - a,
{
    if a < 0 || a >= lines.len() {
        lines.len() as int
    } else if is_repos_open(lines[a]) {
        a
    } else {
        repos_open_scan(lines, a + 1)
    }
}

/// The lines with the repository declarations inserted directly after the
/// first `repositories {` opener; without an opener nothing changes.
pub open spec fn spec_insert_repositories(lines: Seq<Seq<char>>, repos: Seq<Seq<char>>) -> Seq<
    Seq<char>,
> {
    let j = repos_open_scan(lines, 0);
    if !(0 <= j && j < lines.len()) {
        lines
    } else {
        lines.take(j + 1) + maven_lines(repos) + lines.skip(j + 1)
    }
}

proof fn lemma_repos_open_scan_pins(lines: Seq<Seq<char>>, a: int, j: int)
    requires
        0 <= a <= j <= lines.len(),
        forall|k: int| a <= k < j ==> !is_repos_open(lines[k]),
        j < lines.len() ==> is_repos_open(lines[j]),
    ensures
        repos_open_scan(lines, a) == j,
    decreases j - a,
{
    if a < j {
        lemma_repos_open_scan_pins(lines, a + 1, j);
    }
}

/// Builds the declaration line for one repository.
fn build_maven_line(repo: &str) -> (r: String)
    ensures
        r@ == maven_line(repo@),
{
    let mut l = "        maven { url = uri(\"".to_owned();
    l.append(repo);
    l.append("\") }");
    l
}

/// Inserts the repository declarations after the first `repositories {`
/// opener of the given lines.
fn insert_repositories(lines: &Vec<String>, repos: &Vec<String>) -> (out: Vec<String>)
    ensures
        out.deep_view() == spec_insert_repositories(lines.deep_view(), repos.deep_view()),
{
    let ghost full = lines.deep_view();
    let n = lines.len();
    let mut j: usize = 0;
    while j < n && !is_repos_open_line(&lines[j])
        invariant
            0 <= j <= n,
            n == lines@.len(),
            full == lines.deep_view(),
            forall|k: int| 0 <= k < j ==> !is_repos_open(full[k]),
        decreases n - j,
    {
        j = j + 1;
    }
    proof {
        lemma_repos_open_scan_pins(full, 0, j as int);
    }
    let mut out: Vec<String> = Vec::new();
    if j == n {
        crate::logbook::append_all(&mut out, lines);
        proof {
            assert(out.deep_view() =~= full);
        }
        return out;
    }
    let mut i: usize = 0;
    while i <= j
        invariant
            0 <= i <= j + 1,
            j < n,
            n == lines@.len(),
            full == lines.deep_view(),
            out.deep_view() =~= full.take(i as int),
        decreases j + 1 - i,
    {
        let ghost before = out.deep_view();
        out.push(lines[i].clone());
        proof {
            assert(out.deep_view() =~= before.push(full[i as int]));
            assert(before.push(full[i as int]) =~= full.take(i as int + 1));
        }
        i = i + 1;
    }
    let mut k: usize = 0;
    while k < repos.len()
        invariant
            0 <= k <= repos@.len(),
            j < n,
            n == lines@.len(),
            full == lines.deep_view(),
            out.deep_view() =~= full.take(j as int + 1) + maven_lines(
                repos.deep_view().take(k as int),
            ),
        decreases repos@.len() - k,
    {
        let ghost before = out.deep_view();
        let l = build_maven_line(repos[k].as_str());
        out.push(l);
        proof {
            assert(out.deep_view() =~= before.push(maven_line(repos.deep_view()[k as int])));
            assert(maven_lines(repos.deep_view().take(k as int + 1)) =~= maven_lines(
                repos.deep_view().take(k as int),
            ).push(maven_line(repos.deep_view()[k as int])));
            assert(out.deep_view() =~= full.take(j as int + 1) + maven_lines(
                repos.deep_view().take(k as int + 1),
            ));
        }
        k = k + 1;
    }
    proof {
        assert(repos.deep_view().take(repos@.len() as int) =~= repos.deep_view());
    }
    let mut i2: usize = j + 1;
    while i2 < n
        invariant
            j + 1 <= i2 <= n,
            n == lines@.len(),
            full == lines.deep_view(),
            out.deep_view() =~= full.take(j as int + 1) + maven_lines(repos.deep_view())
                + full.subrange(j as int + 1, i2 as int),
        decreases n - i2,
    {
        let ghost before = out.deep_view();
        out.push(lines[i2].clone());
        proof {
            assert(out.deep_view() =~= before.push(full[i2 as int]));
            assert(full.subrange(j as int + 1, i2 as int + 1) =~= full.subrange(
                j as int + 1,
                i2 as int,
            ).push(full[i2 as int]));
            assert(out.deep_view() =~= full.take(j as int + 1) + maven_lines(repos.deep_view())
                + full.subrange(j as int + 1, i2 as int + 1));
        }
        i2 = i2 + 1;
    }
    proof {
        assert(full.subrange(j as int + 1, n as int) =~= full.skip(j as int + 1));
        assert(out.deep_view() =~= spec_insert_repositories(full, repos.deep_view()));
    }
    out
}

/// Whether this line, trimmed, opens a repositories block.
fn is_repos_open_line(line: &String) -> (r: bool)
    ensures
        r == is_repos_open(line@),
{
    let t = trim(line.as_str());
    str_eq(t.as_str(), "repositories {")
}

/// Rewrites a project-level build file so that the repository list is
/// declared right after its first `repositories {` opener; the result is
/// the whole file, lines joined and closed by a line feed.
pub fn apply_repositories(content: &str, repos: &Vec<String>) -> (r: String)
    ensures
        r@ == joined_with(
            spec_insert_repositories(spec_lines(content@), repos.deep_view()),
            seq!['\n'],
        ) + seq!['\n'],
{
    let lines = split_lines(content);
    let out = insert_repositories(&lines, repos);
    render_lines(&out)
}

/// Rewrites the settings file's plugin-management repositories, the same
/// insertion as `apply_repositories` applied to its first opener.
pub fn apply_plugin_repositories(content: &str, repos: &Vec<String>) -> (r: String)
    ensures
        r@ == joined_with(
            spec_insert_repositories(spec_lines(content@), repos.deep_view()),
            seq!['\n'],
        ) + seq!['\n'],
{
    let lines = split_lines(content);
    let out = insert_repositories(&lines, repos);
    render_lines(&out)
}

/// The rewriter's state while it walks the application build file: the
/// output so far, which blocks it stands in, and which additions are done.
#[verifier::ext_equal]
pub struct GradleFold {
    pub out: Seq<Seq<char>>,
    pub in_build_types: bool,
    pub in_default_config: bool,
    pub in_kotlin_options: bool,
    pub added_output: bool,
    pub added_abis: bool,
    pub added_kotlin: bool,
}

/// The rewriter before the first line.
pub open spec fn init_gradle_fold() -> GradleFold {
    GradleFold {
        out: Seq::empty(),
        in_build_types: false,
        in_default_config: false,
        in_kotlin_options: false,
        added_output: false,
        added_abis: false,
        added_kotlin: false,
    }
}

pub open spec fn namespace_line(ns: Seq<char>) -> Seq<char> {
    "    namespace = \""@ + ns + "\""@
}

pub open spec fn application_id_line(id: Seq<char>) -> Seq<char> {
    "        applicationId = \""@ + id + "\""@
}

/// The lines that switch Kotlin incremental compilation off.
pub open spec fn kotlin_incremental_block() -> Seq<Seq<char>> {
    seq![
        Seq::<char>::empty(),
        "    // Disable Kotlin incremental compilation to avoid cross-drive path issues"@,
        "    tasks.withType<org.jetbrains.kotlin.gradle.tasks.KotlinCompile> {"@,
        "        incremental = false"@,
        "    }"@,
    ]
}

/// The line adding one ABI filter.
pub open spec fn abi_line(a: Seq<char>) -> Seq<char> {
    "            abiFilters.add(\""@ + a + "\")"@
}

/// The `ndk` block naming the ABI filters.
pub open spec fn ndk_block(abis: Seq<Seq<char>>) -> Seq<Seq<char>> {
    seq!["        ndk {"@] + abis.map_values(|a: Seq<char>| abi_line(a)) + seq!["        }"@]
}

/// The block that renames every build variant's output file.
pub open spec fn output_name_block(pat: Seq<char>) -> Seq<Seq<char>> {
    seq![
        Seq::<char>::empty(),
        "    applicationVariants.all {"@,
        "        outputs.all {"@,
        "            val output = this as com.android.build.gradle.internal.api.BaseVariantOutputImpl"@,
        "            output.outputFileName = \""@ + pat + "\""@,
        "        }"@,
        "    }"@,
    ]
}

/// One line through the rewriter, in the order the checks are made: echo
/// the line with the namespace and application identifier substituted;
/// note an opening `kotlinOptions`, `defaultConfig` or `buildTypes`; and
/// at the first bare `}` that closes each, add the Kotlin options after
/// it, the `ndk` block before it, or the output-name block after it.
/// The echoed form of a line: the namespace and application-identifier
/// assignments substituted, every other line unchanged.
pub open spec fn echoed_of(line: Seq<char>, ns: Seq<char>, id: Seq<char>) -> Seq<char> {
    if starts_with(trimmed_start(line), "namespace = "@) {
        namespace_line(ns)
    } else if starts_with(trimmed_start(line), "applicationId = "@) {
        application_id_line(id)
    } else {
        line
    }
}

pub open spec fn step_echo(st: GradleFold, line: Seq<char>, ns: Seq<char>, id: Seq<char>) -> GradleFold {
    GradleFold { out: st.out.push(echoed_of(line, ns, id)), ..st }
}

pub open spec fn step_note_kotlin(st: GradleFold, line: Seq<char>) -> GradleFold {
    if starts_with(trimmed(line), "kotlinOptions {"@) {
        GradleFold { in_kotlin_options: true, ..st }
    } else {
        st
    }
}

pub open spec fn step_kotlin_close(st: GradleFold, line: Seq<char>, ki: Option<bool>) -> GradleFold {
    if st.in_kotlin_options && trimmed(line) == "}"@ && !st.added_kotlin {
        let closed = GradleFold { in_kotlin_options: false, ..st };
        if ki == Some(false) {
            GradleFold { out: closed.out + kotlin_incremental_block(), added_kotlin: true, ..closed }
        } else {
            closed
        }
    } else {
        st
    }
}

pub open spec fn step_note_default(st: GradleFold, line: Seq<char>) -> GradleFold {
    if starts_with(trimmed(line), "defaultConfig {"@) {
        GradleFold { in_default_config: true, ..st }
    } else {
        st
    }
}

pub open spec fn step_default_close(st: GradleFold, line: Seq<char>, abis: Option<Seq<Seq<char>>>) -> GradleFold {
    if st.in_default_config && trimmed(line) == "}"@ && !st.added_abis {
        let with_ndk = match abis {
            Some(a) => if a.len() > 0 {
                GradleFold {
                    out: st.out.take(st.out.len() - 1) + ndk_block(a) + st.out.skip(
                        st.out.len() - 1,
                    ),
                    ..st
                }
            } else {
                st
            },
            None => st,
        };
        GradleFold { in_default_config: false, added_abis: true, ..with_ndk }
    } else {
        st
    }
}

pub open spec fn step_note_build(st: GradleFold, line: Seq<char>) -> GradleFold {
    if starts_with(trimmed(line), "buildTypes {"@) {
        GradleFold { in_build_types: true, ..st }
    } else {
        st
    }
}

pub open spec fn step_build_close(st: GradleFold, line: Seq<char>, ofn: Option<Seq<char>>) -> GradleFold {
    if st.in_build_types && trimmed(line) == "}"@ && !st.added_output {
        let closed = GradleFold { in_build_types: false, ..st };
        match ofn {
            Some(pat) => GradleFold {
                out: closed.out + output_name_block(pat),
                added_output: true,
                ..closed
            },
            None => closed,
        }
    } else {
        st
    }
}

/// One line through the rewriter, in the order the checks are made: echo
/// the line with the namespace and application identifier substituted;
/// note an opening `kotlinOptions`, `defaultConfig` or `buildTypes`; and
/// at the first bare `}` that closes each, add the Kotlin options after
/// it, the `ndk` block before it, or the output-name block after it.
pub open spec fn gradle_step(
    st: GradleFold,
    line: Seq<char>,
    ns: Seq<char>,
    id: Seq<char>,
    ofn: Option<Seq<char>>,
    abis: Option<Seq<Seq<char>>>,
    ki: Option<bool>,
) -> GradleFold {
    step_build_close(
        step_note_build(
            step_default_close(
                step_note_default(
                    step_kotlin_close(step_note_kotlin(step_echo(st, line, ns, id), line), line, ki),
                    line,
                ),
                line,
                abis,
            ),
            line,
        ),
        line,
        ofn,
    )
}

/// The rewriter over a sequence of lines.
pub open spec fn gradle_run(
    st: GradleFold,
    lines: Seq<Seq<char>>,
    ns: Seq<char>,
    id: Seq<char>,
    ofn: Option<Seq<char>>,
    abis: Option<Seq<Seq<char>>>,
    ki: Option<bool>,
) -> GradleFold
    decreases lines.len(),
{
    if lines.len() == 0 {
        st
    } else {
        gradle_run(gradle_step(st, lines[0], ns, id, ofn, abis, ki), lines.drop_first(), ns, id, ofn, abis, ki)
    }
}

/// The rewritten application build file, line by line.
pub open spec fn spec_apply_app_gradle(
    lines: Seq<Seq<char>>,
    ns: Seq<char>,
    id: Seq<char>,
    ofn: Option<Seq<char>>,
    abis: Option<Seq<Seq<char>>>,
    ki: Option<bool>,
) -> Seq<Seq<char>> {
    gradle_run(init_gradle_fold(), lines, ns, id, ofn, abis, ki).out
}

proof fn lemma_gradle_run_snoc(
    st: GradleFold,
    lines: Seq<Seq<char>>,
    x: Seq<char>,
    ns: Seq<char>,
    id: Seq<char>,
    ofn: Option<Seq<char>>,
    abis: Option<Seq<Seq<char>>>,
    ki: Option<bool>,
)
    ensures
        gradle_run(st, lines.push(x), ns, id, ofn, abis, ki) == gradle_step(
            gradle_run(st, lines, ns, id, ofn, abis, ki),
            x,
            ns,
            id,
            ofn,
            abis,
            ki,
        ),
    decreases lines.len(),
{
    if lines.len() == 0 {
        let one = lines.push(x);
        assert(one[0] == x);
        assert(one.drop_first() =~= Seq::<Seq<char>>::empty());
        assert(gradle_run(gradle_step(st, x, ns, id, ofn, abis, ki), one.drop_first(), ns, id, ofn, abis, ki)
            == gradle_step(st, x, ns, id, ofn, abis, ki));
    } else {
        assert(lines.push(x)[0] == lines[0]);
        assert(lines.push(x).drop_first() =~= lines.drop_first().push(x));
        lemma_gradle_run_snoc(
            gradle_step(st, lines[0], ns, id, ofn, abis, ki),
            lines.drop_first(),
            x,
            ns,
            id,
            ofn,
            abis,
            ki,
        );
    }
}

spec fn mk_fold(
    out: Seq<Seq<char>>,
    in_build_types: bool,
    in_default_config: bool,
    in_kotlin_options: bool,
    added_output: bool,
    added_abis: bool,
    added_kotlin: bool,
) -> GradleFold {
    GradleFold {
        out,
        in_build_types,
        in_default_config,
        in_kotlin_options,
        added_output,
        added_abis,
        added_kotlin,
    }
}

/// Rewrites the application module's build file: substitutes the
/// namespace and application identifier lines, and adds the output-name,
/// ABI-filter and Kotlin blocks at the first closers of their sections;
/// the result is the whole file, lines joined and closed by a line feed.
/// Builds the echoed form of one line.
fn echo_line(line: &String, namespace: &str, application_id: &str) -> (r: String)
    ensures
        r@ == echoed_of(line@, namespace@, application_id@),
{
    let ts = trim_start(line.as_str());
    if str_starts_with(ts.as_str(), "namespace = ") {
        let mut l = "    namespace = \"".to_owned();
        l.append(namespace);
        l.append("\"");
        l
    } else if str_starts_with(ts.as_str(), "applicationId = ") {
        let mut l = "        applicationId = \"".to_owned();
        l.append(application_id);
        l.append("\"");
        l
    } else {
        line.clone()
    }
}

/// Appends the Kotlin incremental-compilation block.
fn push_kotlin_block(out: &mut Vec<String>)
    ensures
        final(out).deep_view() == old(out).deep_view() + kotlin_incremental_block(),
{
    let ghost before = out.deep_view();
    out.push(String::new());
    out.push(
        "    // Disable Kotlin incremental compilation to avoid cross-drive path issues".to_owned(),
    );
    out.push("    tasks.withType<org.jetbrains.kotlin.gradle.tasks.KotlinCompile> {".to_owned());
    out.push("        incremental = false".to_owned());
    out.push("    }".to_owned());
    proof {
        assert(out.deep_view() =~= before + kotlin_incremental_block());
    }
}

/// Appends the output-file-name block for the given pattern.
fn push_output_block(out: &mut Vec<String>, pat: &str)
    ensures
        final(out).deep_view() == old(out).deep_view() + output_name_block(pat@),
{
    let ghost before = out.deep_view();
    out.push(String::new());
    out.push("    applicationVariants.all {".to_owned());
    out.push("        outputs.all {".to_owned());
    out.push(
        "            val output = this as com.android.build.gradle.internal.api.BaseVariantOutputImpl".to_owned(),
    );
    let mut l = "            output.outputFileName = \"".to_owned();
    l.append(pat);
    l.append("\"");
    out.push(l);
    out.push("        }".to_owned());
    out.push("    }".to_owned());
    proof {
        assert(out.deep_view() =~= before + output_name_block(pat@));
    }
}

/// Inserts the `ndk` block directly before the last line, the closing
/// brace that was just echoed.
fn insert_ndk_before_last(out: &mut Vec<String>, abis: &Vec<String>)
    requires
        old(out)@.len() >= 1,
    ensures
        final(out).deep_view() == old(out).deep_view().take(old(out)@.len() - 1) + ndk_block(
            abis.deep_view(),
        ) + old(out).deep_view().skip(old(out)@.len() - 1),
{
    let ghost whole = out.deep_view();
    let closing = match out.pop() {
        Some(c) => c,
        None => String::new(),
    };
    proof {
        assert(out.deep_view() =~= whole.take(whole.len() - 1));
        assert(closing@ == whole[whole.len() - 1]);
    }
    let ghost stem = out.deep_view();
    out.push("        ndk {".to_owned());
    proof {
        assert(abis.deep_view().take(0).map_values(|a: Seq<char>| abi_line(a))
            =~= Seq::<Seq<char>>::empty());
        assert(out.deep_view() =~= stem + seq!["        ndk {"@] + abis.deep_view().take(
            0,
        ).map_values(|a: Seq<char>| abi_line(a)));
    }
    let mut m: usize = 0;
    while m < abis.len()
        invariant
            0 <= m <= abis@.len(),
            abis@.len() == abis.deep_view().len(),
            stem == whole.take(whole.len() - 1),
            out.deep_view() =~= stem + seq!["        ndk {"@] + abis.deep_view().take(
                m as int,
            ).map_values(|a: Seq<char>| abi_line(a)),
        decreases abis@.len() - m,
    {
        let ghost before_m = out.deep_view();
        let mut l = "            abiFilters.add(\"".to_owned();
        l.append(abis[m].as_str());
        l.append("\")");
        out.push(l);
        proof {
            assert(out.deep_view() =~= before_m.push(abi_line(abis.deep_view()[m as int])));
            assert(abis.deep_view().take(m as int + 1).map_values(|a: Seq<char>| abi_line(a))
                =~= abis.deep_view().take(m as int).map_values(|a: Seq<char>| abi_line(a)).push(
                abi_line(abis.deep_view()[m as int]),
            ));
            assert(out.deep_view() =~= stem + seq!["        ndk {"@] + abis.deep_view().take(
                m as int + 1,
            ).map_values(|a: Seq<char>| abi_line(a)));
        }
        m = m + 1;
    }
    proof {
        assert(abis.deep_view().take(abis@.len() as int) =~= abis.deep_view());
    }
    let ghost mid = out.deep_view();
    out.push("        }".to_owned());
    out.push(closing);
    proof {
        assert(out.deep_view() =~= mid.push("        }"@).push(whole[whole.len() - 1]));
        assert(seq![whole[whole.len() - 1]] =~= whole.skip(whole.len() - 1));
        assert(out.deep_view() =~= whole.take(whole.len() - 1) + ndk_block(abis.deep_view())
            + whole.skip(whole.len() - 1));
    }
}

#[verifier::rlimit(100)]
pub fn apply_app_gradle(
    content: &str,
    namespace: &str,
    application_id: &str,
    output_file_name: &Option<String>,
    abi_filters: &Option<Vec<String>>,
    kotlin_incremental: Option<bool>,
) -> (r: String)
    ensures
        r@ == joined_with(
            spec_apply_app_gradle(
                spec_lines(content@),
                namespace@,
                application_id@,
                output_file_name.deep_view(),
                abi_filters.deep_view(),
                kotlin_incremental,
            ),
            seq!['\n'],
        ) + seq!['\n'],
{
    let ghost ns = namespace@;
    let ghost id = application_id@;
    let ghost ofn = output_file_name.deep_view();
    let ghost abis_v = abi_filters.deep_view();
    let lines = split_lines(content);
    let ghost full = lines.deep_view();
    let mut out: Vec<String> = Vec::new();
    let mut in_build_types = false;
    let mut in_default_config = false;
    let mut in_kotlin_options = false;
    let mut added_output = false;
    let mut added_abis = false;
    let mut added_kotlin = false;
    let mut i: usize = 0;
    proof {
        assert(full.take(0) =~= Seq::<Seq<char>>::empty());
        assert(out.deep_view() =~= Seq::<Seq<char>>::empty());
    }
    while i < lines.len()
        invariant
            0 <= i <= lines@.len(),
            full == lines.deep_view(),
            full.len() == lines@.len(),
            ns == namespace@,
            id == application_id@,
            ofn == output_file_name.deep_view(),
            abis_v == abi_filters.deep_view(),
            mk_fold(
                out.deep_view(),
                in_build_types,
                in_default_config,
                in_kotlin_options,
                added_output,
                added_abis,
                added_kotlin,
            ) == gradle_run(
                init_gradle_fold(),
                full.take(i as int),
                ns,
                id,
                ofn,
                abis_v,
                kotlin_incremental,
            ),
        decreases lines@.len() - i,
    {
        let ghost prev = mk_fold(
            out.deep_view(),
            in_build_types,
            in_default_config,
            in_kotlin_options,
            added_output,
            added_abis,
            added_kotlin,
        );
        let ghost lv = full[i as int];
        let line = &lines[i];
        proof {
            assert(line@ == lv);
        }
        let tl = trim(line.as_str());
        let echoed = echo_line(line, namespace, application_id);
        out.push(echoed);
        let ghost st1 = step_echo(prev, lv, ns, id);
        proof {
            assert(out.deep_view() =~= prev.out.push(echoed_of(lv, ns, id)));
            assert(mk_fold(
                out.deep_view(),
                in_build_types,
                in_default_config,
                in_kotlin_options,
                added_output,
                added_abis,
                added_kotlin,
            ) =~= st1);
        }
        if str_starts_with(tl.as_str(), "kotlinOptions {") {
            in_kotlin_options = true;
        }
        let ghost st2 = step_note_kotlin(st1, lv);
        if in_kotlin_options && str_eq(tl.as_str(), "}") && !added_kotlin {
            in_kotlin_options = false;
            let add_block = match kotlin_incremental {
                Some(b) => !b,
                None => false,
            };
            if add_block {
                push_kotlin_block(&mut out);
                added_kotlin = true;
            }
        }
        let ghost st3 = step_kotlin_close(st2, lv, kotlin_incremental);
        proof {
            assert(mk_fold(
                out.deep_view(),
                in_build_types,
                in_default_config,
                in_kotlin_options,
                added_output,
                added_abis,
                added_kotlin,
            ) =~= st3);
        }
        if str_starts_with(tl.as_str(), "defaultConfig {") {
            in_default_config = true;
        }
        let ghost st4 = step_note_default(st3, lv);
        if in_default_config && str_eq(tl.as_str(), "}") && !added_abis {
            match abi_filters {
                Some(abis) => {
                    if abis.len() > 0 {
                        proof {
                            assert(out.deep_view().len() >= 1);
                        }
                        insert_ndk_before_last(&mut out, abis);
                    }
                },
                None => {},
            }
            in_default_config = false;
            added_abis = true;
        }
        let ghost st5 = step_default_close(st4, lv, abis_v);
        proof {
            assert(mk_fold(
                out.deep_view(),
                in_build_types,
                in_default_config,
                in_kotlin_options,
                added_output,
                added_abis,
                added_kotlin,
            ) =~= st5);
        }
        if str_starts_with(tl.as_str(), "buildTypes {") {
            in_build_types = true;
        }
        let ghost st6 = step_note_build(st5, lv);
        if in_build_types && str_eq(tl.as_str(), "}") && !added_output {
            in_build_types = false;
            match output_file_name {
                Some(pat) => {
                    push_output_block(&mut out, pat.as_str());
                    added_output = true;
                },
                None => {},
            }
        }
        proof {
            let now = mk_fold(
                out.deep_view(),
                in_build_types,
                in_default_config,
                in_kotlin_options,
                added_output,
                added_abis,
                added_kotlin,
            );
            assert(now =~= step_build_close(st6, lv, ofn));
            assert(full.take(i as int + 1) =~= full.take(i as int).push(lv));
            lemma_gradle_run_snoc(
                init_gradle_fold(),
                full.take(i as int),
                lv,
                ns,
                id,
                ofn,
                abis_v,
                kotlin_incremental,
            );
        }
        i = i + 1;
    }
    proof {
        assert(full.take(full.len() as int) =~= full);
    }
    render_lines(&out)
}

// ---------------------------------------------------------------------------
// Where the Android templates live and land
// ---------------------------------------------------------------------------

/// One manifest template and where its copy goes, relative to the
/// templates directory and the generated Android directory.
pub struct ManifestMapping {
    pub template: String,
    pub destination: String,
    pub required: bool,
}

/// The manifest templates the generator copies: the main manifest, which
/// must exist, and the optional debug and profile manifests.
pub fn manifest_mappings() -> (r: Vec<ManifestMapping>)
    ensures
        r@.len() == 3,
        r@[0].template@ == "AndroidManifest.main.xml"@ && r@[0].destination@
            == "app/src/main/AndroidManifest.xml"@ && r@[0].required,
        r@[1].template@ == "AndroidManifest.debug.xml"@ && r@[1].destination@
            == "app/src/debug/AndroidManifest.xml"@ && !r@[1].required,
        r@[2].template@ == "AndroidManifest.profile.xml"@ && r@[2].destination@
            == "app/src/profile/AndroidManifest.xml"@ && !r@[2].required,
{
    let mut out: Vec<ManifestMapping> = Vec::new();
    out.push(
        ManifestMapping {
            template: "AndroidManifest.main.xml".to_owned(),
            destination: "app/src/main/AndroidManifest.xml".to_owned(),
            required: true,
        },
    );
    out.push(
        ManifestMapping {
            template: "AndroidManifest.debug.xml".to_owned(),
            destination: "app/src/debug/AndroidManifest.xml".to_owned(),
            required: false,
        },
    );
    out.push(
        ManifestMapping {
            template: "AndroidManifest.profile.xml".to_owned(),
            destination: "app/src/profile/AndroidManifest.xml".to_owned(),
            required: false,
        },
    );
    out
}

/// The templates root: the configured directory, trimmed, or `platforms`
/// when none is configured or it is blank.
pub fn platforms_root(platforms_dir: &Option<String>) -> (r: String)
    ensures
        match platforms_dir {
            Some(p) => if trimmed(p@).len() > 0 {
                r@ == trimmed(p@)
            } else {
                r@ == "platforms"@
            },
            None => r@ == "platforms"@,
        },
{
    match platforms_dir {
        Some(p) => {
            let t = trim(p.as_str());
            if t.as_str().unicode_len() > 0 {
                t
            } else {
                "platforms".to_owned()
            }
        },
        None => "platforms".to_owned(),
    }
}

} // verus!
