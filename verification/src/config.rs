//! The configuration record and the ways to load it.

use crate::document::{
    as_table, entries, flag_at, list_at, misfit, misfit_message, number_at, parse, parsed,
    read_flag, read_list, read_number, read_text, text_at, Datum, Kind,
};
use crate::error::{ConfigError, Failure};
use crate::filesystem::{
    candidates, is_dir, is_file, lemma_first_present, lemma_none_present, locate_files, located,
    Entry, Node, Snapshot,
};
use crate::trim::{normalized, trim_whitespace};
use vstd::prelude::*;

verus! {

/// The analysis configuration of a project. Every field is optional: a key
/// that the file does not have leaves its field absent, and an empty list is
/// not an absent one.
#[derive(Debug, PartialEq, PartialOrd)]
pub struct Config {
    /// The shell command to run before the analysis.
    pub setup: Option<String>,
    /// The build command.
    pub build: Option<String>,
    /// The rules whose findings are escalated.
    pub important_rules: Option<Vec<String>>,
    /// The rules whose findings are suppressed.
    pub ignore_rules: Option<Vec<String>>,
    /// The path prefixes to leave out, one to a line, in tidy form.
    pub ignore_files: Option<String>,
    /// The tools to run, and no others.
    pub tools: Option<Vec<String>>,
    /// The tools not to run.
    pub disable_tools: Option<Vec<String>>,
    /// The project's own tools.
    pub custom_tools: Option<Vec<String>>,
    /// The users who may start an analysis.
    pub allow: Option<Vec<String>>,
    /// Whether to build with JDK 11.
    pub jdk_11: Option<bool>,
    /// The Android version to build against.
    pub android_version: Option<u32>,
    /// The Error Prone bug patterns to report.
    pub errorprone_bug_patterns: Option<Vec<String>>,
    /// Whether to post summary comments.
    pub summary_comments: Option<bool>,
}

/// The mathematical value of a [`Config`].
pub ghost struct Record {
    pub setup: Option<Seq<char>>,
    pub build: Option<Seq<char>>,
    pub important_rules: Option<Seq<Seq<char>>>,
    pub ignore_rules: Option<Seq<Seq<char>>>,
    pub ignore_files: Option<Seq<char>>,
    pub tools: Option<Seq<Seq<char>>>,
    pub disable_tools: Option<Seq<Seq<char>>>,
    pub custom_tools: Option<Seq<Seq<char>>>,
    pub allow: Option<Seq<Seq<char>>>,
    pub jdk_11: Option<bool>,
    pub android_version: Option<u32>,
    pub errorprone_bug_patterns: Option<Seq<Seq<char>>>,
    pub summary_comments: Option<bool>,
}

impl Record {
    /// The record with every field absent.
    pub open spec fn empty() -> Record {
        Record {
            setup: None,
            build: None,
            important_rules: None,
            ignore_rules: None,
            ignore_files: None,
            tools: None,
            disable_tools: None,
            custom_tools: None,
            allow: None,
            jdk_11: None,
            android_version: None,
            errorprone_bug_patterns: None,
            summary_comments: None,
        }
    }
}

impl View for Config {
    type V = Record;

    open spec fn view(&self) -> Record {
        Record {
            setup: self.setup.deep_view(),
            build: self.build.deep_view(),
            important_rules: self.important_rules.deep_view(),
            ignore_rules: self.ignore_rules.deep_view(),
            ignore_files: self.ignore_files.deep_view(),
            tools: self.tools.deep_view(),
            disable_tools: self.disable_tools.deep_view(),
            custom_tools: self.custom_tools.deep_view(),
            allow: self.allow.deep_view(),
            jdk_11: self.jdk_11,
            android_version: self.android_version,
            errorprone_bug_patterns: self.errorprone_bug_patterns.deep_view(),
            summary_comments: self.summary_comments,
        }
    }
}

/// The mathematical value of the outcome of a load.
pub open spec fn outcome(loaded: Result<Config, ConfigError>) -> Result<Record, Failure> {
    match loaded {
        Ok(config) => Ok(config@),
        Err(error) => Err(error@),
    }
}

/// The first key, in the order of the record's fields, under which the
/// document holds a value of the wrong type. The key names are those of the
/// file, which differ from the names of the fields.
pub open spec fn first_misfit(doc: Map<Seq<char>, Datum>) -> Option<Seq<char>> {
    if misfit(doc, "setup"@, Kind::Text) {
        Some("setup"@)
    } else if misfit(doc, "build"@, Kind::Text) {
        Some("build"@)
    } else if misfit(doc, "importantRules"@, Kind::List) {
        Some("importantRules"@)
    } else if misfit(doc, "ignoreRules"@, Kind::List) {
        Some("ignoreRules"@)
    } else if misfit(doc, "ignoreFiles"@, Kind::Text) {
        Some("ignoreFiles"@)
    } else if misfit(doc, "tools"@, Kind::List) {
        Some("tools"@)
    } else if misfit(doc, "disableTools"@, Kind::List) {
        Some("disableTools"@)
    } else if misfit(doc, "customTools"@, Kind::List) {
        Some("customTools"@)
    } else if misfit(doc, "allow"@, Kind::List) {
        Some("allow"@)
    } else if misfit(doc, "jdk11"@, Kind::Flag) {
        Some("jdk11"@)
    } else if misfit(doc, "androidVersion"@, Kind::Number) {
        Some("androidVersion"@)
    } else if misfit(doc, "errorproneBugPatterns"@, Kind::List) {
        Some("errorproneBugPatterns"@)
    } else if misfit(doc, "summaryComments"@, Kind::Flag) {
        Some("summaryComments"@)
    } else {
        None
    }
}

/// The record that a document stands for: each field is what the document
/// holds under the field's key, `ignore_files` in tidy form. Keys that no
/// field asks for are passed over. A value of the wrong type under one of the
/// keys is a parse failure that names the first such key.
pub open spec fn record_of(doc: Map<Seq<char>, Datum>) -> Result<Record, Failure> {
    match first_misfit(doc) {
        Some(key) => Err(Failure::FileTomlParseFailed(misfit_message(key))),
        None => Ok(
            Record {
                setup: text_at(doc, "setup"@),
                build: text_at(doc, "build"@),
                important_rules: list_at(doc, "importantRules"@),
                ignore_rules: list_at(doc, "ignoreRules"@),
                ignore_files: match text_at(doc, "ignoreFiles"@) {
                    Some(text) => Some(normalized(text)),
                    None => None,
                },
                tools: list_at(doc, "tools"@),
                disable_tools: list_at(doc, "disableTools"@),
                custom_tools: list_at(doc, "customTools"@),
                allow: list_at(doc, "allow"@),
                jdk_11: flag_at(doc, "jdk11"@),
                android_version: number_at(doc, "androidVersion"@),
                errorprone_bug_patterns: list_at(doc, "errorproneBugPatterns"@),
                summary_comments: flag_at(doc, "summaryComments"@),
            },
        ),
    }
}

/// Whether `key` is one of the keys that a field of the record asks for.
pub open spec fn known_key(key: Seq<char>) -> bool {
    ||| key == "setup"@
    ||| key == "build"@
    ||| key == "importantRules"@
    ||| key == "ignoreRules"@
    ||| key == "ignoreFiles"@
    ||| key == "tools"@
    ||| key == "disableTools"@
    ||| key == "customTools"@
    ||| key == "allow"@
    ||| key == "jdk11"@
    ||| key == "androidVersion"@
    ||| key == "errorproneBugPatterns"@
    ||| key == "summaryComments"@
}

/// A key that no field asks for is passed over, whatever it holds: the
/// document stands for the same record with it and without it.
pub proof fn lemma_unknown_keys_ignored(doc: Map<Seq<char>, Datum>, key: Seq<char>, value: Datum)
    requires
        !known_key(key),
    ensures
        record_of(doc.insert(key, value)) == record_of(doc),
        record_of(doc.remove(key)) == record_of(doc),
{
}

/// A field of the record is there exactly when the document has the field's
/// key: a key that is missing leaves the field absent, and a key that is
/// there fills it, be it with an empty string or an empty list.
pub proof fn lemma_fields_follow_keys(doc: Map<Seq<char>, Datum>)
    requires
        record_of(doc) is Ok,
    ensures
        ({
            let record = record_of(doc)->Ok_0;
            &&& record.setup is Some <==> doc.contains_key("setup"@)
            &&& record.build is Some <==> doc.contains_key("build"@)
            &&& record.important_rules is Some <==> doc.contains_key("importantRules"@)
            &&& record.ignore_rules is Some <==> doc.contains_key("ignoreRules"@)
            &&& record.ignore_files is Some <==> doc.contains_key("ignoreFiles"@)
            &&& record.tools is Some <==> doc.contains_key("tools"@)
            &&& record.disable_tools is Some <==> doc.contains_key("disableTools"@)
            &&& record.custom_tools is Some <==> doc.contains_key("customTools"@)
            &&& record.allow is Some <==> doc.contains_key("allow"@)
            &&& record.jdk_11 is Some <==> doc.contains_key("jdk11"@)
            &&& record.android_version is Some <==> doc.contains_key("androidVersion"@)
            &&& record.errorprone_bug_patterns is Some <==> doc.contains_key(
                "errorproneBugPatterns"@,
            )
            &&& record.summary_comments is Some <==> doc.contains_key("summaryComments"@)
        }),
{
}

/// What a text decodes to: the record of the table that the text parses to,
/// or a parse failure: with the parser's message where the text does not
/// parse, and with a message of its own where it parses to something else
/// than a table.
pub open spec fn decoded(text: Seq<char>) -> Result<Record, Failure> {
    match parsed(text) {
        Ok(Datum::Table(doc)) => record_of(doc),
        Ok(_) => Err(Failure::FileTomlParseFailed("expected a table"@)),
        Err(cause) => Err(Failure::FileTomlParseFailed(cause)),
    }
}

/// What loading the file at `path` gives. Only a regular file is loaded:
/// where there is none, the load fails with `FileNotFound` of that path.
pub open spec fn loaded_file(files: Map<Seq<char>, Entry>, path: Seq<char>) -> Result<
    Record,
    Failure,
> {
    if !is_file(files, path) {
        Err(Failure::FileNotFound(path))
    } else {
        match files[path] {
            Entry::Unreadable(cause) => Err(Failure::FileReadFailed(cause)),
            Entry::File(text) => decoded(text),
            Entry::Directory => Err(Failure::FileNotFound(path)),
        }
    }
}

/// What loading from the directory `root` gives: the file that wins among
/// those found there, and nothing where none is found. A file that wins and
/// fails to load fails the whole load; the files after it are not tried.
pub open spec fn loaded_folder(files: Map<Seq<char>, Entry>, root: Seq<char>) -> Result<
    Option<Record>,
    Failure,
> {
    match located(files, root) {
        Err(failure) => Err(failure),
        Ok(found) => if found.len() == 0 {
            Ok(None)
        } else {
            as_found(loaded_file(files, found[0]))
        },
    }
}

/// The outcome of loading a file, as the outcome of a search that found it.
pub open spec fn as_found(loaded: Result<Record, Failure>) -> Result<Option<Record>, Failure> {
    match loaded {
        Ok(record) => Ok(Some(record)),
        Err(failure) => Err(failure),
    }
}

/// The mathematical value of the outcome of a load from a directory.
pub open spec fn outcome_of_search(loaded: Result<Option<Config>, ConfigError>) -> Result<
    Option<Record>,
    Failure,
> {
    match loaded {
        Ok(Some(config)) => Ok(Some(config@)),
        Ok(None) => Ok(None),
        Err(error) => Err(error@),
    }
}

/// A project without any of the candidate files has no configuration, which
/// is no failure.
pub proof fn lemma_no_candidate_loads_nothing(files: Map<Seq<char>, Entry>, root: Seq<char>)
    requires
        is_dir(files, root),
        forall|k: int|
            0 <= k < candidates(root).len() ==> !is_file(files, #[trigger] candidates(root)[k]),
    ensures
        loaded_folder(files, root) == Ok::<Option<Record>, Failure>(None),
{
    lemma_none_present(files, root);
}

/// Where several candidates are there, the load from the directory is the
/// load of the one that comes first in the order of the candidates: it gives
/// that file's record, or fails as that file does, whatever the others hold.
pub proof fn lemma_first_candidate_wins(files: Map<Seq<char>, Entry>, root: Seq<char>, k: int)
    requires
        is_dir(files, root),
        0 <= k < candidates(root).len(),
        is_file(files, candidates(root)[k]),
        forall|j: int| 0 <= j < k ==> !is_file(files, #[trigger] candidates(root)[j]),
    ensures
        loaded_folder(files, root) == as_found(loaded_file(files, candidates(root)[k])),
{
    lemma_first_present(files, root, k);
}

/// Where exactly one candidate is there, the load from the directory is the
/// load of that file.
pub proof fn lemma_only_candidate_loads(files: Map<Seq<char>, Entry>, root: Seq<char>, k: int)
    requires
        is_dir(files, root),
        0 <= k < candidates(root).len(),
        is_file(files, candidates(root)[k]),
        forall|j: int|
            0 <= j < candidates(root).len() && j != k ==> !is_file(
                files,
                #[trigger] candidates(root)[j],
            ),
    ensures
        loaded_folder(files, root) == as_found(loaded_file(files, candidates(root)[k])),
{
    lemma_first_candidate_wins(files, root, k);
}

impl Default for Config {
    /// The configuration with every field absent.
    fn default() -> (config: Self)
        ensures
            config@ == Record::empty(),
    {
        Config {
            setup: None,
            build: None,
            important_rules: None,
            ignore_rules: None,
            ignore_files: None,
            tools: None,
            disable_tools: None,
            custom_tools: None,
            allow: None,
            jdk_11: None,
            android_version: None,
            errorprone_bug_patterns: None,
            summary_comments: None,
        }
    }
}

impl Config {
    /// Reads a configuration out of the top-level table of a parsed document:
    /// see [`record_of`].
    pub fn from_table(table: &toml::value::Table) -> (loaded: Result<Config, ConfigError>)
        ensures
            outcome(loaded) == record_of(entries(*table)),
    {
        let setup = read_text(table, "setup")?;
        let build = read_text(table, "build")?;
        let important_rules = read_list(table, "importantRules")?;
        let ignore_rules = read_list(table, "ignoreRules")?;
        let ignore_files = trim_whitespace(read_text(table, "ignoreFiles")?);
        let tools = read_list(table, "tools")?;
        let disable_tools = read_list(table, "disableTools")?;
        let custom_tools = read_list(table, "customTools")?;
        let allow = read_list(table, "allow")?;
        let jdk_11 = read_flag(table, "jdk11")?;
        let android_version = read_number(table, "androidVersion")?;
        let errorprone_bug_patterns = read_list(table, "errorproneBugPatterns")?;
        let summary_comments = read_flag(table, "summaryComments")?;
        Ok(
            Config {
                setup,
                build,
                important_rules,
                ignore_rules,
                ignore_files,
                tools,
                disable_tools,
                custom_tools,
                allow,
                jdk_11,
                android_version,
                errorprone_bug_patterns,
                summary_comments,
            },
        )
    }

    /// Loads the configuration file that `files` has at `path`: see
    /// [`loaded_file`]. A path with nothing at it, or with a directory, fails
    /// with `FileNotFound` of that path, which a caller may take for "no
    /// configuration". A file that could not be read fails with
    /// `FileReadFailed`, and one that does not decode with
    /// `FileTomlParseFailed`.
    pub fn from_file(path: &str, files: &Snapshot) -> (loaded: Result<Config, ConfigError>)
        ensures
            outcome(loaded) == loaded_file(files@, path@),
            !files@.contains_key(path@) ==> outcome(loaded) == Err::<Record, Failure>(
                Failure::FileNotFound(path@),
            ),
            is_dir(files@, path@) ==> outcome(loaded) == Err::<Record, Failure>(
                Failure::FileNotFound(path@),
            ),
            files@.contains_key(path@) && files@[path@] is File && parsed(files@[path@]->File_0) is Err
                ==> (outcome(loaded) matches Err(failure) && failure is FileTomlParseFailed),
    {
        match files.get(path) {
            Some(Node::File(text)) => Config::from_toml(text.as_str()),
            Some(Node::Unreadable(cause)) => Err(ConfigError::FileReadFailed(cause.clone())),
            _ => Err(ConfigError::FileNotFound(path.to_owned())),
        }
    }

    /// Loads the configuration of the project under the directory `path`:
    /// that of the first file that [`locate_files`] finds there, and none
    /// where it finds no file. See [`loaded_folder`].
    pub fn from_folder(path: &str, files: &Snapshot) -> (loaded: Result<
        Option<Config>,
        ConfigError,
    >)
        ensures
            outcome_of_search(loaded) == loaded_folder(files@, path@),
            is_dir(files@, path@) && (forall|k: int|
                0 <= k < candidates(path@).len() ==> !is_file(
                    files@,
                    #[trigger] candidates(path@)[k],
                )) ==> loaded matches Ok(None),
    {
        let config_files = locate_files(path, files)?;
        if config_files.len() > 0 {
            Ok(Some(Config::from_file(config_files[0].as_str(), files)?))
        } else {
            Ok(None)
        }
    }

    /// Decodes a configuration from the text of a TOML file: see [`decoded`].
    pub fn from_toml(text: &str) -> (loaded: Result<Config, ConfigError>)
        ensures
            outcome(loaded) == decoded(text@),
    {
        match parse(text) {
            Ok(value) => match as_table(&value) {
                Some(table) => Config::from_table(table),
                None => Err(ConfigError::FileTomlParseFailed("expected a table".to_owned())),
            },
            Err(cause) => Err(ConfigError::FileTomlParseFailed(cause)),
        }
    }
}

} // verus!
