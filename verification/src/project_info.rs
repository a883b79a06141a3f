//! A small, tolerant reader for `.csproj` project files: enough to learn the
//! target framework, the assembly name, and the output type, with the usual
//! fallbacks when a tag is absent.

use vstd::prelude::*;
use crate::json::{JsonValue, JsonView};
use crate::text::{spec_find, spec_trim, str_of};

verus! {

broadcast use vstd::std_specs::vec::group_vec_axioms;

/// What a project builds.
pub enum OutputType {
    Exe,
    WinExe,
    Library,
}

/// What a `.csproj` file declares about its project.
pub struct DotNetProject {
    pub target_framework: String,
    pub assembly_name: String,
    pub output_type: OutputType,
    pub project_path: String,
}

/// The value of the first `<tag>...</tag>` occurrence: found either as a
/// plain open tag or as an open tag carrying attributes, the value trimmed.
pub open spec fn spec_extract_tag_value(text: Seq<char>, tag: Seq<char>) -> Option<Seq<char>> {
    let open1 = "<"@ + tag + ">"@;
    let close = "</"@ + tag + ">"@;
    let plain = {
        let s1 = spec_find(text, open1);
        if s1 >= 0 {
            let after = text.skip(s1 + open1.len());
            let e1 = spec_find(after, close);
            if e1 >= 0 {
                Some(spec_trim(after.take(e1)))
            } else {
                None
            }
        } else {
            None
        }
    };
    if plain is Some {
        plain
    } else {
        let open_prefix = "<"@ + tag + " "@;
        let s2 = spec_find(text, open_prefix);
        if s2 >= 0 {
            let from_open = text.skip(s2);
            let gt = spec_find(from_open, ">"@);
            if gt >= 0 {
                let inner = from_open.skip(gt + 1);
                let e2 = spec_find(inner, close);
                if e2 >= 0 {
                    Some(spec_trim(inner.take(e2)))
                } else {
                    None
                }
            } else {
                None
            }
        } else {
            None
        }
    }
}

/// Find `pat` in `s`, as [`spec_find`] counts positions.
fn find_at(s: &str, pat: &str) -> (r: Option<usize>)
    ensures
        match r {
            Some(i) => spec_find(s@, pat@) == i as int && i + pat@.len() <= s@.len(),
            None => spec_find(s@, pat@) == -1,
        },
{
    let r = crate::text::find_sub(s, pat);
    proof {
        crate::text::lemma_find_agrees(s@, pat@, r);
    }
    r
}

/// The value of the first `<tag>...</tag>` occurrence in `text`, trimmed;
/// tags carrying attributes are found too.
pub fn extract_tag_value(text: &str, tag: &str) -> (r: Option<String>)
    ensures
        match r {
            Some(v) => spec_extract_tag_value(text@, tag@) == Some(v@),
            None => spec_extract_tag_value(text@, tag@) is None,
        },
{
    let text_len = crate::text::char_len(text);
    let mut open1 = str_of("<");
    open1.append(tag);
    open1.append(">");
    let mut close = str_of("</");
    close.append(tag);
    close.append(">");
    if let Some(start) = find_at(text, open1.as_str()) {
        let open_len = crate::text::char_len(open1.as_str());
        let after = text.substring_char(start + open_len, text_len);
        proof {
            assert(after@ =~= text@.skip(start + open1@.len()));
        }
        if let Some(end) = find_at(after, close.as_str()) {
            let value = after.substring_char(0, end);
            proof {
                assert(value@ =~= after@.take(end as int));
            }
            return Some(str_of(crate::text::trim(value)));
        }
    }
    let mut open_prefix = str_of("<");
    open_prefix.append(tag);
    open_prefix.append(" ");
    if let Some(start) = find_at(text, open_prefix.as_str()) {
        let from_open = text.substring_char(start, text_len);
        proof {
            assert(from_open@ =~= text@.skip(start as int));
        }
        let from_len = crate::text::char_len(from_open);
        if let Some(gt) = find_at(from_open, ">") {
            proof {
                reveal_strlit(">");
            }
            let inner = from_open.substring_char(gt + 1, from_len);
            proof {
                assert(inner@ =~= from_open@.skip(gt + 1));
            }
            if let Some(end) = find_at(inner, close.as_str()) {
                let value = inner.substring_char(0, end);
                proof {
                    assert(value@ =~= inner@.take(end as int));
                }
                return Some(str_of(crate::text::trim(value)));
            }
        }
    }
    None
}

/// The value of the first of `tags` that occurs in `text`.
pub open spec fn spec_extract_first_of_tags(text: Seq<char>, tags: Seq<Seq<char>>) -> Option<
    Seq<char>,
>
    decreases tags.len(),
{
    if tags.len() == 0 {
        None
    } else {
        match spec_extract_tag_value(text, tags[0]) {
            Some(v) => Some(v),
            None => spec_extract_first_of_tags(text, tags.drop_first()),
        }
    }
}

/// The value of the first of `tags` that occurs in `text`.
pub fn extract_first_of_tags(text: &str, tags: &Vec<String>) -> (r: Option<String>)
    ensures
        match r {
            Some(v) => spec_extract_first_of_tags(text@, crate::text::strs_view(tags@)) == Some(
                v@,
            ),
            None => spec_extract_first_of_tags(text@, crate::text::strs_view(tags@)) is None,
        },
{
    let r = extract_from(text, tags, 0);
    proof {
        assert(crate::text::strs_view(tags@).skip(0) =~= crate::text::strs_view(tags@));
    }
    r
}

/// The value of the first of `tags[from..]` that occurs in `text`.
fn extract_from(text: &str, tags: &Vec<String>, from: usize) -> (r: Option<String>)
    requires
        from <= tags@.len(),
    ensures
        match r {
            Some(v) => spec_extract_first_of_tags(
                text@,
                crate::text::strs_view(tags@).skip(from as int),
            ) == Some(v@),
            None => spec_extract_first_of_tags(
                text@,
                crate::text::strs_view(tags@).skip(from as int),
            ) is None,
        },
    decreases tags@.len() - from,
{
    let ghost ts = crate::text::strs_view(tags@).skip(from as int);
    if from == tags.len() {
        proof {
            assert(ts =~= Seq::<Seq<char>>::empty());
        }
        return None;
    }
    proof {
        assert(ts[0] == crate::text::strs_view(tags@)[from as int]);
        assert(ts.drop_first() =~= crate::text::strs_view(tags@).skip(from as int + 1));
    }
    match extract_tag_value(text, tags[from].as_str()) {
        Some(v) => Some(v),
        None => extract_from(text, tags, from + 1),
    }
}

/// The file stem of a path: the part after the last `/`, without its last
/// extension, except that a leading dot alone is kept.
pub open spec fn spec_file_stem(path: Seq<char>) -> Seq<char> {
    let base = {
        let i = crate::middleware::solution_loader::last_index_of(path, '/');
        if i == -1 {
            path
        } else {
            path.skip(i + 1)
        }
    };
    let d = crate::middleware::solution_loader::last_index_of(base, '.');
    if d > 0 {
        base.take(d)
    } else {
        base
    }
}

/// The file stem of a path.
#[verifier::rlimit(50)]
fn file_stem(path: &str) -> (r: String)
    ensures
        r@ == spec_file_stem(path@),
{
    let plen = crate::text::char_len(path);
    proof {
        crate::middleware::solution_loader::lemma_last_index_of(path@, '/');
    }
    let base = match crate::text::rfind_char(path, '/') {
        Some(i) => {
            proof {
                assert(crate::middleware::solution_loader::last_index_of(path@, '/') == i as int);
            }
            path.substring_char(i + 1, plen)
        },
        None => {
            proof {
                assert(crate::middleware::solution_loader::last_index_of(path@, '/') == -1) by {
                    if crate::middleware::solution_loader::last_index_of(path@, '/') != -1 {
                        assert(path@[crate::middleware::solution_loader::last_index_of(path@, '/')]
                            == '/');
                    }
                };
            }
            path.substring_char(0, plen)
        },
    };
    proof {
        assert(path@.subrange(0, plen as int) =~= path@);
        crate::middleware::solution_loader::lemma_last_index_of(base@, '.');
    }
    let blen = crate::text::char_len(base);
    let stem = match crate::text::rfind_char(base, '.') {
        Some(d) => {
            proof {
                assert(crate::middleware::solution_loader::last_index_of(base@, '.') == d as int);
            }
            if d > 0 {
                base.substring_char(0, d)
            } else {
                base.substring_char(0, blen)
            }
        },
        None => {
            proof {
                assert(crate::middleware::solution_loader::last_index_of(base@, '.') == -1) by {
                    if crate::middleware::solution_loader::last_index_of(base@, '.') != -1 {
                        assert(base@[crate::middleware::solution_loader::last_index_of(base@, '.')]
                            == '.');
                    }
                };
            }
            base.substring_char(0, blen)
        },
    };
    proof {
        assert(base@.subrange(0, blen as int) =~= base@);
        assert(base@ =~= {
            let i = crate::middleware::solution_loader::last_index_of(path@, '/');
            if i == -1 {
                path@
            } else {
                path@.skip(i + 1)
            }
        });
    }
    str_of(stem)
}

/// The declared target framework: the tag's value, one entry of a
/// semicolon-separated list reduced to its first entry, or `net8.0`.
pub open spec fn spec_target_framework(text: Seq<char>) -> Seq<char> {
    let declared = match spec_extract_first_of_tags(
        text,
        seq!["TargetFramework"@, "TargetFrameworks"@],
    ) {
        Some(v) => v,
        None => "net8.0"@,
    };
    if crate::text::contains_seq(declared, ";"@) {
        spec_trim(crate::text::spec_split_char(declared, ';')[0])
    } else {
        declared
    }
}

/// The declared assembly name: the tag's value, the project file's stem, or
/// `Program` for an empty stem.
pub open spec fn spec_assembly_name(text: Seq<char>, path: Seq<char>) -> Seq<char> {
    match spec_extract_first_of_tags(text, seq!["AssemblyName"@]) {
        Some(v) => v,
        None => {
            let stem = spec_file_stem(path);
            if stem.len() == 0 {
                "Program"@
            } else {
                stem
            }
        },
    }
}

/// The declared output type; anything but `Exe` and `WinExe` is a library.
pub open spec fn spec_output_type(text: Seq<char>) -> OutputType {
    match spec_extract_first_of_tags(text, seq!["OutputType"@]) {
        Some(v) => {
            if v == "Exe"@ {
                OutputType::Exe
            } else if v == "WinExe"@ {
                OutputType::WinExe
            } else {
                OutputType::Library
            }
        },
        None => OutputType::Library,
    }
}

impl DotNetProject {
    /// Read a project's declaration from its `.csproj` text, with fallbacks:
    /// target framework `net8.0`, assembly name from the file stem, output
    /// type library.
    #[verifier::rlimit(100)]
    pub fn from_csproj_text(text: &str, project_path: &str) -> (r: DotNetProject)
        ensures
            r.target_framework@ == spec_target_framework(text@),
            r.assembly_name@ == spec_assembly_name(text@, project_path@),
            r.output_type == spec_output_type(text@),
            r.project_path@ == project_path@,
    {
        let mut tf_tags: Vec<String> = Vec::new();
        tf_tags.push(str_of("TargetFramework"));
        tf_tags.push(str_of("TargetFrameworks"));
        proof {
            assert(crate::text::strs_view(tf_tags@) =~= seq![
                "TargetFramework"@,
                "TargetFrameworks"@,
            ]);
        }
        let target_framework = match extract_first_of_tags(text, &tf_tags) {
            Some(v) => v,
            None => str_of("net8.0"),
        };

        let mut name_tags: Vec<String> = Vec::new();
        name_tags.push(str_of("AssemblyName"));
        proof {
            assert(crate::text::strs_view(name_tags@) =~= seq!["AssemblyName"@]);
        }
        let assembly_name = match extract_first_of_tags(text, &name_tags) {
            Some(v) => v,
            None => {
                let stem = file_stem(project_path);
                if crate::text::char_len(stem.as_str()) == 0 {
                    str_of("Program")
                } else {
                    stem
                }
            },
        };

        let mut type_tags: Vec<String> = Vec::new();
        type_tags.push(str_of("OutputType"));
        proof {
            assert(crate::text::strs_view(type_tags@) =~= seq!["OutputType"@]);
        }
        let output_type = match extract_first_of_tags(text, &type_tags) {
            Some(v) => {
                if crate::text::str_eq(v.as_str(), "Exe") {
                    OutputType::Exe
                } else if crate::text::str_eq(v.as_str(), "WinExe") {
                    OutputType::WinExe
                } else {
                    OutputType::Library
                }
            },
            None => OutputType::Library,
        };

        let tf = if crate::text::contains_sub(target_framework.as_str(), ";") {
            proof {
                reveal_strlit(";");
            }
            let parts = crate::text::split_char(target_framework.as_str(), ';');
            proof {
                crate::text::lemma_split_nonempty(target_framework@, ';');
                assert(parts.deep_view().len() == parts@.len());
                assert(parts.deep_view()[0] == parts@[0]@);
            }
            str_of(crate::text::trim(parts[0].as_str()))
        } else {
            target_framework
        };

        DotNetProject {
            target_framework: tf,
            assembly_name,
            output_type,
            project_path: str_of(project_path),
        }
    }

    /// The path of the built assembly for a configuration:
    /// `<project dir>/bin/<configuration>/<target framework>/<assembly>.<ext>`,
    /// the extension `exe` for executables and `dll` for libraries, with `.`
    /// standing in for a missing project directory.
    pub fn get_output_path(&self, configuration: &str) -> (r: String)
        ensures
            r@ == spec_output_path(
                self.project_path@,
                configuration@,
                self.target_framework@,
                self.assembly_name@,
                self.output_type,
            ),
    {
        proof {
            crate::middleware::solution_loader::lemma_last_index_of(self.project_path@, '/');
        }
        let dir = match crate::text::rfind_char(self.project_path.as_str(), '/') {
            Some(i) => {
                proof {
                    assert(crate::middleware::solution_loader::last_index_of(
                        self.project_path@,
                        '/',
                    ) == i as int);
                }
                crate::text::substring(self.project_path.as_str(), 0, i)
            },
            None => {
                proof {
                    assert(crate::middleware::solution_loader::last_index_of(
                        self.project_path@,
                        '/',
                    ) == -1) by {
                        if crate::middleware::solution_loader::last_index_of(
                            self.project_path@,
                            '/',
                        ) != -1 {
                            assert(self.project_path@[crate::middleware::solution_loader::last_index_of(
                                self.project_path@,
                                '/',
                            )] == '/');
                        }
                    };
                }
                str_of(".")
            },
        };
        let mut out = dir;
        out.append("/bin/");
        out.append(configuration);
        out.append("/");
        out.append(self.target_framework.as_str());
        out.append("/");
        out.append(self.assembly_name.as_str());
        match self.output_type {
            OutputType::Exe => out.append(".exe"),
            OutputType::WinExe => out.append(".exe"),
            OutputType::Library => out.append(".dll"),
        }
        proof {
            assert(out@ =~= spec_output_path(
                self.project_path@,
                configuration@,
                self.target_framework@,
                self.assembly_name@,
                self.output_type,
            ));
        }
        out
    }
}

/// The configuration defaults handed to the server for a Unity project.
pub open spec fn spec_unity_omnisharp_config() -> JsonView {
    JsonView::Object(
        seq![
            (
                "RoslynExtensionsOptions"@,
                JsonView::Object(
                    seq![
                        ("enableDecompilationSupport"@, JsonView::Bool(true)),
                        ("enableImportCompletion"@, JsonView::Bool(true)),
                        ("enableAnalyzersSupport"@, JsonView::Bool(true)),
                    ],
                ),
            ),
            (
                "FormattingOptions"@,
                JsonView::Object(seq![("enableEditorConfigSupport"@, JsonView::Bool(true))]),
            ),
            (
                "FileOptions"@,
                JsonView::Object(
                    seq![
                        (
                            "excludeSearchPatterns"@,
                            JsonView::Array(
                                seq![
                                    JsonView::Str("**/Library/**"@),
                                    JsonView::Str("**/Temp/**"@),
                                    JsonView::Str("**/Logs/**"@),
                                    JsonView::Str("**/obj/**"@),
                                    JsonView::Str("**/bin/**"@),
                                ],
                            ),
                        ),
                    ],
                ),
            ),
            (
                "RoslynOptions"@,
                JsonView::Object(seq![("enableUnsafeCodeCompilation"@, JsonView::Bool(false))]),
            ),
            (
                "Plugins"@,
                JsonView::Object(
                    seq![
                        ("Unity"@, JsonView::Object(seq![("enabled"@, JsonView::Bool(true))])),
                    ],
                ),
            ),
        ],
    )
}

/// The configuration defaults handed to the server for a Unity project.
pub fn get_unity_omnisharp_config() -> (r: JsonValue)
    ensures
        r@ == spec_unity_omnisharp_config(),
{
    let mut reo: Vec<(String, JsonValue)> = Vec::new();
    reo.push((str_of("enableDecompilationSupport"), JsonValue::Bool(true)));
    reo.push((str_of("enableImportCompletion"), JsonValue::Bool(true)));
    reo.push((str_of("enableAnalyzersSupport"), JsonValue::Bool(true)));
    let reo = JsonValue::Object(reo);
    proof {
        assert(reo@->Object_0[0].1 == crate::json::json_view(JsonValue::Bool(true)));
        assert(reo@->Object_0 =~= spec_unity_omnisharp_config()->Object_0[0].1->Object_0);
    }
    let ghost reo_v = reo@;

    let mut fo: Vec<(String, JsonValue)> = Vec::new();
    fo.push((str_of("enableEditorConfigSupport"), JsonValue::Bool(true)));
    let fo = JsonValue::Object(fo);
    proof {
        assert(fo@->Object_0[0].1 == crate::json::json_view(JsonValue::Bool(true)));
        assert(fo@->Object_0 =~= spec_unity_omnisharp_config()->Object_0[1].1->Object_0);
    }
    let ghost fo_v = fo@;

    let mut excludes: Vec<JsonValue> = Vec::new();
    excludes.push(JsonValue::of_str("**/Library/**"));
    excludes.push(JsonValue::of_str("**/Temp/**"));
    excludes.push(JsonValue::of_str("**/Logs/**"));
    excludes.push(JsonValue::of_str("**/obj/**"));
    excludes.push(JsonValue::of_str("**/bin/**"));
    let excludes = JsonValue::Array(excludes);
    proof {
        assert(excludes@->Array_0 =~= spec_unity_omnisharp_config()->Object_0[2].1->Object_0[0].1
            ->Array_0);
    }
    let ghost excludes_v = excludes@;
    let mut file_options: Vec<(String, JsonValue)> = Vec::new();
    file_options.push((str_of("excludeSearchPatterns"), excludes));
    let file_options = JsonValue::Object(file_options);
    proof {
        assert(file_options@->Object_0[0].1 == excludes_v);
        assert(file_options@->Object_0 =~= spec_unity_omnisharp_config()->Object_0[2].1->Object_0);
    }
    let ghost file_options_v = file_options@;

    let mut ro: Vec<(String, JsonValue)> = Vec::new();
    ro.push((str_of("enableUnsafeCodeCompilation"), JsonValue::Bool(false)));
    let ro = JsonValue::Object(ro);
    proof {
        assert(ro@->Object_0[0].1 == crate::json::json_view(JsonValue::Bool(false)));
        assert(ro@->Object_0 =~= spec_unity_omnisharp_config()->Object_0[3].1->Object_0);
    }
    let ghost ro_v = ro@;

    let mut unity: Vec<(String, JsonValue)> = Vec::new();
    unity.push((str_of("enabled"), JsonValue::Bool(true)));
    let unity = JsonValue::Object(unity);
    proof {
        assert(unity@->Object_0[0].1 == crate::json::json_view(JsonValue::Bool(true)));
        assert(unity@->Object_0 =~= spec_unity_omnisharp_config()->Object_0[4].1->Object_0[0].1
            ->Object_0);
    }
    let ghost unity_v = unity@;
    let mut plugins: Vec<(String, JsonValue)> = Vec::new();
    plugins.push((str_of("Unity"), unity));
    let plugins = JsonValue::Object(plugins);
    proof {
        assert(plugins@->Object_0[0].1 == unity_v);
        assert(plugins@->Object_0 =~= spec_unity_omnisharp_config()->Object_0[4].1->Object_0);
    }
    let ghost plugins_v = plugins@;

    let mut config: Vec<(String, JsonValue)> = Vec::new();
    config.push((str_of("RoslynExtensionsOptions"), reo));
    config.push((str_of("FormattingOptions"), fo));
    config.push((str_of("FileOptions"), file_options));
    config.push((str_of("RoslynOptions"), ro));
    config.push((str_of("Plugins"), plugins));
    let config = JsonValue::Object(config);
    proof {
        assert(config@->Object_0[0].1 == reo_v);
        assert(config@->Object_0[1].1 == fo_v);
        assert(config@->Object_0[2].1 == file_options_v);
        assert(config@->Object_0[3].1 == ro_v);
        assert(config@->Object_0[4].1 == plugins_v);
        assert(config@->Object_0 =~= spec_unity_omnisharp_config()->Object_0);
    }
    config
}

/// The path of the built assembly, as [`DotNetProject::get_output_path`]
/// assembles it.
pub open spec fn spec_output_path(
    project_path: Seq<char>,
    configuration: Seq<char>,
    target_framework: Seq<char>,
    assembly_name: Seq<char>,
    output_type: OutputType,
) -> Seq<char> {
    let i = crate::middleware::solution_loader::last_index_of(project_path, '/');
    let dir = if i == -1 {
        "."@
    } else {
        project_path.take(i)
    };
    let ext = match output_type {
        OutputType::Exe => ".exe"@,
        OutputType::WinExe => ".exe"@,
        OutputType::Library => ".dll"@,
    };
    dir + "/bin/"@ + configuration + "/"@ + target_framework + "/"@ + assembly_name + ext
}

} // verus!
