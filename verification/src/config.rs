//! Configuration types: the analyzer section, per-rule settings, and
//! their extraction from a parsed document.

use vstd::prelude::*;

verus! {

use crate::severity::{spec_parse_severity, Severity};
use crate::strutil::str_eq;
use crate::toml_data::{
    parse_toml_table,
    strings_of_array,
    table_get,
    table_get_bool,
    table_get_str,
    table_get_str_array,
    table_keys,
    value_as_array,
    value_as_bool,
    value_as_integer,
    value_as_str,
    value_as_table,
};

/// A rule-specific option value, as far as the rules read them.
#[derive(Debug, Clone)]
pub enum OptionValue {
    /// A boolean option.
    Bool(bool),
    /// An integer option.
    Int(i64),
    /// A string option.
    Str(String),
    /// A list of strings.
    StrList(Vec<String>),
    /// A value of another shape; reads fall back to their defaults.
    Other,
}

/// Per-rule configuration: the enabled flag, a severity override, and
/// rule-specific options.
#[derive(Debug, Clone)]
pub struct RuleConfig {
    /// Whether this rule is enabled; enabled when absent.
    pub enabled: Option<bool>,
    /// Severity override for this rule.
    pub severity: Option<Severity>,
    /// Rule-specific options as key-value pairs.
    pub options: Vec<(String, OptionValue)>,
}

/// The first option value stored under a key, if any.
pub open spec fn spec_option_of(options: Seq<(String, OptionValue)>, key: Seq<char>) -> Option<
    OptionValue,
>
    decreases options.len(),
{
    if options.len() == 0 {
        None
    } else if options[0].0@ == key {
        Some(options[0].1)
    } else {
        spec_option_of(options.subrange(1, options.len() as int), key)
    }
}

impl RuleConfig {
    /// A rule configuration with nothing set.
    pub fn new() -> (r: RuleConfig)
        ensures
            r.enabled is None,
            r.severity is None,
            r.options@.len() == 0,
    {
        RuleConfig { enabled: None, severity: None, options: Vec::new() }
    }

    /// Looks an option up by key: the first entry with that key.
    fn option_of(&self, key: &str) -> (r: Option<&OptionValue>)
        ensures
            match r {
                Some(v) => spec_option_of(self.options@, key@) == Some(*v),
                None => spec_option_of(self.options@, key@) is None,
            },
    {
        let n = self.options.len();
        let mut i: usize = 0;
        proof {
            assert(self.options@.subrange(0, n as int) =~= self.options@);
        }
        while i < n
            invariant
                0 <= i <= n,
                n == self.options@.len(),
                spec_option_of(self.options@, key@) == spec_option_of(
                    self.options@.subrange(i as int, n as int),
                    key@,
                ),
            decreases n - i,
        {
            let ghost suffix = self.options@.subrange(i as int, n as int);
            proof {
                assert(suffix[0] == self.options@[i as int]);
            }
            if str_eq(self.options[i].0.as_str(), key) {
                return Some(&self.options[i].1);
            }
            proof {
                assert(suffix.subrange(1, suffix.len() as int) =~= self.options@.subrange(
                    i + 1,
                    n as int,
                ));
            }
            i = i + 1;
        }
        proof {
            assert(self.options@.subrange(n as int, n as int).len() == 0);
        }
        None
    }

    /// Gets a boolean option, or the default when the option is absent
    /// or not a boolean.
    pub fn get_bool(&self, key: &str, default: bool) -> (r: bool)
        ensures
            r == match spec_option_of(self.options@, key@) {
                Some(OptionValue::Bool(b)) => b,
                _ => default,
            },
    {
        match self.option_of(key) {
            Some(OptionValue::Bool(b)) => *b,
            _ => default,
        }
    }

    /// Gets an integer option, or the default when the option is absent
    /// or not an integer.
    pub fn get_int(&self, key: &str, default: i64) -> (r: i64)
        ensures
            r == match spec_option_of(self.options@, key@) {
                Some(OptionValue::Int(v)) => v,
                _ => default,
            },
    {
        match self.option_of(key) {
            Some(OptionValue::Int(v)) => *v,
            _ => default,
        }
    }

    /// Gets a string option, or the default when the option is absent
    /// or not a string.
    pub fn get_str<'a>(&'a self, key: &str, default: &'a str) -> (r: &'a str)
        ensures
            r@ == match spec_option_of(self.options@, key@) {
                Some(OptionValue::Str(s)) => s@,
                _ => default@,
            },
    {
        match self.option_of(key) {
            Some(OptionValue::Str(s)) => s.as_str(),
            _ => default,
        }
    }

    /// Gets a string array option, or empty when the option is absent
    /// or not a list of strings.
    pub fn get_str_array(&self, key: &str) -> (r: Vec<String>)
        ensures
            crate::strutil::str_views(r@) == match spec_option_of(self.options@, key@) {
                Some(OptionValue::StrList(v)) => crate::strutil::str_views(v@),
                _ => Seq::<Seq<char>>::empty(),
            },
    {
        match self.option_of(key) {
            Some(OptionValue::StrList(v)) => {
                let r = crate::config::clone_string_list(v);
                r
            },
            _ => {
                let r: Vec<String> = Vec::new();
                proof {
                    assert(crate::strutil::str_views(r@) =~= Seq::<Seq<char>>::empty());
                }
                r
            },
        }
    }
}

/// Clones a list of strings, keeping every text.
pub fn clone_string_list(v: &Vec<String>) -> (r: Vec<String>)
    ensures
        crate::strutil::str_views(r@) == crate::strutil::str_views(v@),
{
    let n = v.len();
    let mut out: Vec<String> = Vec::new();
    let mut i: usize = 0;
    proof {
        assert(crate::strutil::str_views(out@) =~= crate::strutil::str_views(v@).subrange(0, 0));
    }
    while i < n
        invariant
            0 <= i <= n,
            n == v@.len(),
            crate::strutil::str_views(out@) == crate::strutil::str_views(v@).subrange(0, i as int),
        decreases n - i,
    {
        let ghost old_out = out@;
        out.push(v[i].clone());
        proof {
            assert(crate::strutil::str_views(out@) =~= crate::strutil::str_views(old_out).push(
                v@[i as int]@,
            ));
            assert(crate::strutil::str_views(v@).subrange(0, i + 1) =~= crate::strutil::str_views(
                v@,
            ).subrange(0, i as int).push(crate::strutil::str_views(v@)[i as int]));
        }
        i = i + 1;
    }
    proof {
        assert(crate::strutil::str_views(v@).subrange(0, n as int) =~= crate::strutil::str_views(
            v@,
        ));
    }
    out
}

/// Analyzer-level configuration.
#[derive(Debug, Clone)]
pub struct AnalyzerConfig {
    /// Root directory to analyze.
    pub root: String,
    /// Glob patterns to exclude from analysis.
    pub exclude: Vec<String>,
    /// Whether to respect ignore files.
    pub respect_gitignore: bool,
}

impl AnalyzerConfig {
    /// The default analyzer configuration: the current directory, the
    /// build and vendor trees excluded, ignore files respected.
    pub fn new() -> (r: AnalyzerConfig)
        ensures
            r.root@ == "."@,
            r.exclude@.len() == 2,
            r.exclude@[0]@ == "**/target/**"@,
            r.exclude@[1]@ == "**/vendor/**"@,
            r.respect_gitignore,
    {
        let mut exclude: Vec<String> = Vec::new();
        exclude.push("**/target/**".to_owned());
        exclude.push("**/vendor/**".to_owned());
        AnalyzerConfig { root: ".".to_owned(), exclude, respect_gitignore: true }
    }
}

/// Top-level configuration.
#[derive(Debug, Clone)]
pub struct Config {
    /// Preset to use (`recommended`, `strict`, `minimal`).
    pub preset: Option<String>,
    /// Severity threshold for failure (`error`, `warning`, `info`).
    pub fail_on: Option<String>,
    /// Analyzer configuration.
    pub analyzer: AnalyzerConfig,
    /// Per-rule configurations, keyed by rule name.
    pub rules: Vec<(String, RuleConfig)>,
}

/// The first rule configuration stored under a name, if any.
pub open spec fn spec_rule_config_of(
    rules: Seq<(String, RuleConfig)>,
    name: Seq<char>,
) -> Option<RuleConfig>
    decreases rules.len(),
{
    if rules.len() == 0 {
        None
    } else if rules[0].0@ == name {
        Some(rules[0].1)
    } else {
        spec_rule_config_of(rules.subrange(1, rules.len() as int), name)
    }
}

/// A rule is enabled under a configuration: its entry omits the
/// enabled flag or sets it to true; a rule without an entry is enabled.
pub open spec fn spec_rule_enabled(rules: Seq<(String, RuleConfig)>, name: Seq<char>) -> bool {
    match spec_rule_config_of(rules, name) {
        None => true,
        Some(c) => match c.enabled {
            None => true,
            Some(b) => b,
        },
    }
}

/// The severity override for a rule, when its entry sets one.
pub open spec fn spec_rule_severity(
    rules: Seq<(String, RuleConfig)>,
    name: Seq<char>,
) -> Option<Severity> {
    match spec_rule_config_of(rules, name) {
        None => None,
        Some(c) => c.severity,
    }
}

/// The view of an optional string.
pub open spec fn opt_str_view(o: Option<String>) -> Option<Seq<char>> {
    match o {
        Some(s) => Some(s@),
        None => None,
    }
}

/// The analyzer section of a document, when present as a table.
pub open spec fn spec_analyzer_table(doc: toml::Table) -> Option<toml::Table> {
    crate::toml_data::spec_table_entry(doc, "analyzer"@)
}

/// The configured root: the analyzer section's `root` string, or the
/// current directory.
pub open spec fn spec_root_of(doc: toml::Table) -> Seq<char> {
    match spec_analyzer_table(doc) {
        Some(at) => match crate::toml_data::spec_str_entry(at, "root"@) {
            Some(r) => r,
            None => "."@,
        },
        None => "."@,
    }
}

/// The default exclude patterns: the build and vendor trees.
pub open spec fn spec_default_excludes() -> Seq<Seq<char>> {
    seq!["**/target/**"@, "**/vendor/**"@]
}

/// The configured excludes: the analyzer section's `exclude` strings,
/// or the defaults.
pub open spec fn spec_exclude_of(doc: toml::Table) -> Seq<Seq<char>> {
    match spec_analyzer_table(doc) {
        Some(at) => match crate::toml_data::spec_str_array_entry(at, "exclude"@) {
            Some(ex) => ex,
            None => spec_default_excludes(),
        },
        None => spec_default_excludes(),
    }
}

/// Whether ignore files are respected: the analyzer section's flag, or
/// true.
pub open spec fn spec_respect_of(doc: toml::Table) -> bool {
    match spec_analyzer_table(doc) {
        Some(at) => match crate::toml_data::spec_bool_entry(at, "respect_gitignore"@) {
            Some(b) => b,
            None => true,
        },
        None => true,
    }
}

/// The rules section of a document, when present as a table.
pub open spec fn spec_rules_table(doc: toml::Table) -> Option<toml::Table> {
    crate::toml_data::spec_table_entry(doc, "rules"@)
}

/// Every table-valued rule entry's severity, when present, is a known
/// severity name.
pub open spec fn spec_rules_severities_ok(doc: toml::Table) -> bool {
    match spec_rules_table(doc) {
        None => true,
        Some(rt) => forall|k: int|
            0 <= k < crate::toml_data::table_key_seq(rt).len() ==> match crate::toml_data::spec_table_entry(
                rt,
                #[trigger] crate::toml_data::table_key_seq(rt)[k],
            ) {
                Some(et) => match crate::toml_data::spec_str_entry(et, "severity"@) {
                    Some(sv) => spec_parse_severity(sv) is Some,
                    None => true,
                },
                None => true,
            },
    }
}

/// The rule names of a rules table: its keys bound to tables, in key
/// order.
pub open spec fn spec_rule_names(rt: toml::Table) -> Seq<Seq<char>> {
    crate::toml_data::table_key_seq(rt).filter(
        |k: Seq<char>| crate::toml_data::spec_table_entry(rt, k) is Some,
    )
}

/// A parsed rule entry carries its table's content: the enabled flag
/// and the severity override.
pub open spec fn rule_entry_corresponds(rc: RuleConfig, et: toml::Table) -> bool {
    &&& rc.enabled == crate::toml_data::spec_bool_entry(et, "enabled"@)
    &&& match crate::toml_data::spec_str_entry(et, "severity"@) {
        Some(sv) => rc.severity is Some && Some(rc.severity->0) == spec_parse_severity(sv),
        None => rc.severity is None,
    }
}

/// The parsed rules carry the rules table's content: one entry per
/// table-valued key, in key order, each corresponding to its table.
pub open spec fn rules_correspond(rules: Seq<(String, RuleConfig)>, rt: toml::Table) -> bool {
    &&& rules.map_values(|p: (String, RuleConfig)| p.0@) == spec_rule_names(rt)
    &&& forall|j: int|
        0 <= j < rules.len() ==> (crate::toml_data::spec_table_entry(
            rt,
            (#[trigger] rules[j]).0@,
        ) matches Some(et) && rule_entry_corresponds(rules[j].1, et))
}

/// Errors when loading configuration.
#[derive(Debug)]
pub enum ConfigError {
    /// IO error reading a config file.
    Io {
        /// Path that failed to read.
        path: String,
        /// Error detail.
        detail: String,
    },
    /// Parse error in config content.
    Parse {
        /// Parse error message.
        message: String,
    },
}

impl Config {
    /// Creates a new default configuration.
    pub fn new() -> (r: Config)
        ensures
            r.preset is None,
            r.fail_on is None,
            r.rules@.len() == 0,
            r.analyzer.root@ == "."@,
            r.analyzer.respect_gitignore,
    {
        Config {
            preset: None,
            fail_on: None,
            analyzer: AnalyzerConfig::new(),
            rules: Vec::new(),
        }
    }

    /// Looks up the configuration entry for a rule.
    pub fn rule_config(&self, rule_name: &str) -> (r: Option<&RuleConfig>)
        ensures
            match r {
                Some(c) => spec_rule_config_of(self.rules@, rule_name@) == Some(*c),
                None => spec_rule_config_of(self.rules@, rule_name@) is None,
            },
    {
        let n = self.rules.len();
        let mut i: usize = 0;
        proof {
            assert(self.rules@.subrange(0, n as int) =~= self.rules@);
        }
        while i < n
            invariant
                0 <= i <= n,
                n == self.rules@.len(),
                spec_rule_config_of(self.rules@, rule_name@) == spec_rule_config_of(
                    self.rules@.subrange(i as int, n as int),
                    rule_name@,
                ),
            decreases n - i,
        {
            let ghost suffix = self.rules@.subrange(i as int, n as int);
            proof {
                assert(suffix[0] == self.rules@[i as int]);
            }
            if str_eq(self.rules[i].0.as_str(), rule_name) {
                return Some(&self.rules[i].1);
            }
            proof {
                assert(suffix.subrange(1, suffix.len() as int) =~= self.rules@.subrange(
                    i + 1,
                    n as int,
                ));
            }
            i = i + 1;
        }
        proof {
            assert(self.rules@.subrange(n as int, n as int).len() == 0);
        }
        None
    }

    /// Checks if a rule is enabled: true unless its entry disables it.
    pub fn is_rule_enabled(&self, rule_name: &str) -> (r: bool)
        ensures
            r == spec_rule_enabled(self.rules@, rule_name@),
    {
        match self.rule_config(rule_name) {
            None => true,
            Some(c) => match c.enabled {
                None => true,
                Some(b) => b,
            },
        }
    }

    /// Gets the severity override for a rule, if its entry sets one.
    pub fn rule_severity(&self, rule_name: &str) -> (r: Option<Severity>)
        ensures
            r == spec_rule_severity(self.rules@, rule_name@),
    {
        match self.rule_config(rule_name) {
            None => None,
            Some(c) => c.severity,
        }
    }

    /// Parses configuration from a document: the preset and threshold
    /// strings, the analyzer section with its defaults, and one rule
    /// entry per table-valued key of the rules section. Unknown
    /// severity names in a rule entry are rejected.
    pub fn parse(content: &str) -> (r: Result<Config, ConfigError>)
        ensures
            r is Ok <==> (crate::toml_data::doc_of(content@) matches Some(doc)
                && spec_rules_severities_ok(doc)),
            r matches Ok(c) ==> (crate::toml_data::doc_of(content@) matches Some(doc) && {
                &&& opt_str_view(c.preset) == crate::toml_data::spec_str_entry(doc, "preset"@)
                &&& opt_str_view(c.fail_on) == crate::toml_data::spec_str_entry(doc, "fail_on"@)
                &&& c.analyzer.root@ == spec_root_of(doc)
                &&& crate::strutil::str_views(c.analyzer.exclude@) == spec_exclude_of(doc)
                &&& c.analyzer.respect_gitignore == spec_respect_of(doc)
                &&& match spec_rules_table(doc) {
                    Some(rt) => rules_correspond(c.rules@, rt),
                    None => c.rules@.len() == 0,
                }
            }),
    {
        let table = match parse_toml_table(content) {
            Ok(t) => t,
            Err(message) => {
                return Err(ConfigError::Parse { message });
            },
        };
        let preset = table_get_str(&table, "preset");
        let fail_on = table_get_str(&table, "fail_on");

        let mut analyzer = AnalyzerConfig::new();
        proof {
            assert(crate::strutil::str_views(analyzer.exclude@) =~= spec_default_excludes());
        }
        match table_get(&table, "analyzer") {
            Some(v) => match value_as_table(v) {
                Some(at) => {
                    match table_get_str(at, "root") {
                        Some(root) => {
                            analyzer.root = root;
                        },
                        None => {},
                    }
                    match table_get_str_array(at, "exclude") {
                        Some(ex) => {
                            analyzer.exclude = ex;
                        },
                        None => {},
                    }
                    match table_get_bool(at, "respect_gitignore") {
                        Some(b) => {
                            analyzer.respect_gitignore = b;
                        },
                        None => {},
                    }
                },
                None => {},
            },
            None => {},
        }

        let mut rules: Vec<(String, RuleConfig)> = Vec::new();
        match table_get(&table, "rules") {
            Some(v) => match value_as_table(v) {
                Some(rt) => {
                    let names = table_keys(rt);
                    let n = names.len();
                    let ghost keep = |k: Seq<char>| crate::toml_data::spec_table_entry(
                        *rt,
                        k,
                    ) is Some;
                    let mut i: usize = 0;
                    proof {
                        assert(rules@.map_values(|p: (String, RuleConfig)| p.0@)
                            =~= crate::toml_data::table_key_seq(*rt).subrange(0, 0).filter(keep));
                    }
                    while i < n
                        invariant
                            0 <= i <= n,
                            n == names@.len(),
                            names@.map_values(|k: String| k@) == crate::toml_data::table_key_seq(
                                *rt,
                            ),
                            keep == |k: Seq<char>| crate::toml_data::spec_table_entry(
                                *rt,
                                k,
                            ) is Some,
                            spec_rules_table(crate::toml_data::doc_of(content@)->0)
                                == Some(*rt),
                            forall|k: int|
                                0 <= k < i ==> match crate::toml_data::spec_table_entry(
                                    *rt,
                                    #[trigger] crate::toml_data::table_key_seq(*rt)[k],
                                ) {
                                    Some(et) => match crate::toml_data::spec_str_entry(
                                        et,
                                        "severity"@,
                                    ) {
                                        Some(sv) => spec_parse_severity(sv) is Some,
                                        None => true,
                                    },
                                    None => true,
                                },
                            rules@.map_values(|p: (String, RuleConfig)| p.0@)
                                == crate::toml_data::table_key_seq(*rt).subrange(
                                0,
                                i as int,
                            ).filter(keep),
                            forall|j: int|
                                0 <= j < rules@.len() ==> (crate::toml_data::spec_table_entry(
                                    *rt,
                                    (#[trigger] rules@[j]).0@,
                                ) matches Some(et) && rule_entry_corresponds(rules@[j].1, et)),
                        decreases n - i,
                    {
                        let ghost keyseq = crate::toml_data::table_key_seq(*rt);
                        proof {
                            assert(names@.map_values(|k: String| k@)[i as int]
                                == names@[i as int]@);
                            crate::types::lemma_filter_push(
                                keyseq.subrange(0, i as int),
                                keyseq[i as int],
                                keep,
                            );
                            assert(keyseq.subrange(0, i + 1) =~= keyseq.subrange(
                                0,
                                i as int,
                            ).push(keyseq[i as int]));
                        }
                        let ghost old_rules = rules@;
                        match table_get(rt, names[i].as_str()) {
                            Some(rv) => match value_as_table(rv) {
                                Some(entry) => {
                                    match parse_rule_entry(entry) {
                                        Ok(rc) => {
                                            rules.push((names[i].clone(), rc));
                                            proof {
                                                assert(rules@.map_values(
                                                    |p: (String, RuleConfig)| p.0@,
                                                ) =~= old_rules.map_values(
                                                    |p: (String, RuleConfig)| p.0@,
                                                ).push(keyseq[i as int]));
                                            }
                                        },
                                        Err(e) => {
                                            proof {
                                                assert(!spec_rules_severities_ok(
                                                    crate::toml_data::doc_of(content@)->0,
                                                ));
                                            }
                                            return Err(e);
                                        },
                                    }
                                },
                                None => {},
                            },
                            None => {},
                        }
                        i = i + 1;
                    }
                    proof {
                        assert(crate::toml_data::table_key_seq(*rt).subrange(0, n as int)
                            =~= crate::toml_data::table_key_seq(*rt));
                    }
                },
                None => {},
            },
            None => {},
        }

        Ok(Config { preset, fail_on, analyzer, rules })
    }
}

/// Parses one rule's table: the enabled flag, the severity override,
/// and the remaining keys as options.
fn parse_rule_entry(entry: &toml::Table) -> (r: Result<RuleConfig, ConfigError>)
    ensures
        r matches Ok(rc) ==> rule_entry_corresponds(rc, *entry),
        r is Err <==> match crate::toml_data::spec_str_entry(*entry, "severity"@) {
            Some(sv) => spec_parse_severity(sv) is None,
            None => false,
        },
{
    let enabled = table_get_bool(entry, "enabled");
    let severity: Option<Severity> = match table_get_str(entry, "severity") {
        Some(s) => match crate::severity::parse_severity(s.as_str()) {
            Some(sv) => Some(sv),
            None => {
                let mut message = "unknown severity: ".to_owned();
                message.append(s.as_str());
                return Err(ConfigError::Parse { message });
            },
        },
        None => None,
    };
    let mut options: Vec<(String, OptionValue)> = Vec::new();
    let keys = table_keys(entry);
    let n = keys.len();
    let mut i: usize = 0;
    while i < n
        invariant
            0 <= i <= n,
            n == keys@.len(),
        decreases n - i,
    {
        let key = &keys[i];
        if !str_eq(key.as_str(), "enabled") && !str_eq(key.as_str(), "severity") {
            match table_get(entry, key.as_str()) {
                Some(v) => {
                    options.push((key.clone(), convert_option_value(v)));
                },
                None => {},
            }
        }
        i = i + 1;
    }
    Ok(RuleConfig { enabled, severity, options })
}

/// Converts a document value into the option shapes the rules read.
fn convert_option_value(v: &toml::Value) -> (r: OptionValue) {
    match value_as_bool(v) {
        Some(b) => {
            return OptionValue::Bool(b);
        },
        None => {},
    }
    match value_as_integer(v) {
        Some(n) => {
            return OptionValue::Int(n);
        },
        None => {},
    }
    match value_as_str(v) {
        Some(s) => {
            return OptionValue::Str(s);
        },
        None => {},
    }
    match value_as_array(v) {
        Some(vs) => {
            return OptionValue::StrList(strings_of_array(vs));
        },
        None => {},
    }
    OptionValue::Other
}

} // verus!
