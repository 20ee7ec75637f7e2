//! The settings of the CCFinderSW detector.

use vstd::prelude::*;
use vstd::string::StringExecFns;
use crate::config::CloneDetectorKind;
use crate::config::Config;
use crate::config::Settings;
use crate::error::InvalidConfigurationError;
use crate::path::expand_tilde;
use crate::path::starts_with_home;
use crate::text::decimal_string;
use crate::text::decimal_text;
use crate::text::free_of;
use crate::text::join;
use crate::text::join_with;
use crate::text::lemma_joined_parts_are_split_again;
use crate::text::lemma_written_number_is_read_back;
use crate::text::parse_unsigned;
use crate::text::same_text;
use crate::text::split;
use crate::text::split_on;
use crate::text::texts;
use crate::text::unsigned_value;

verus! {

/// The languages that the detector can be run on.
#[derive(Clone, Copy, Debug, PartialEq, Eq, Structural)]
pub enum Languages {
    CPlusPlus,
}

/// The name under which a language stands in the settings.
pub fn serialize_language(l: &Languages) -> (name: String)
    ensures
        name@ == "CPlusPlus"@,
{
    match l {
        Languages::CPlusPlus => String::from_str("CPlusPlus"),
    }
}

/// The language that stands in the settings under a name.
pub fn deserialize_language(s: &str) -> (language: Result<Languages, ()>)
    ensures
        s@ == "CPlusPlus"@ ==> language == Ok::<Languages, ()>(Languages::CPlusPlus),
        s@ != "CPlusPlus"@ ==> language is Err,
{
    if same_text(s, "CPlusPlus") {
        Ok(Languages::CPlusPlus)
    } else {
        Err(())
    }
}

/// How the detector is run.
#[derive(Clone, Debug, PartialEq, Eq)]
pub struct CCFinderSWConfig {
    pub executable_path: String,
    pub token_length: u32,
    pub language: Languages,
    pub extensions: Vec<String>,
}

/// The settings that stand for a configuration of the detector.
pub open spec fn settings_of(executable_path: Seq<char>, token_length: u32, extensions: Seq<Seq<char>>)
    -> Map<Seq<char>, Seq<char>> {
    Map::<Seq<char>, Seq<char>>::empty().insert("executable_path"@, executable_path).insert(
        "token_length"@,
        decimal_text(token_length as nat),
    ).insert("language"@, "CPlusPlus"@).insert("extensions"@, join_with(extensions, ","@))
}

/// What settings and the resolved path of the executable make: the path of the
/// executable, the token length, the language and the extensions of a
/// configuration, or the description of the first thing that is wrong.
/// `executable_path` is what the file system resolves the setting
/// `executable_path` to, and `None` where it resolves it to nothing.
pub open spec fn configuration_of(
    settings: Map<Seq<char>, Seq<char>>,
    executable_path: Option<Seq<char>>,
) -> Result<(Seq<char>, u32, Languages, Seq<Seq<char>>), Seq<char>> {
    if !settings.contains_key("executable_path"@) {
        Err("Missing key: `executable_path`"@)
    } else if executable_path is None {
        Err("Could not canonicalize the specified path."@)
    } else if !settings.contains_key("token_length"@) {
        Err("Missing key: `token_length`"@)
    } else if unsigned_value(settings["token_length"@]) is None {
        Err("Invalid value for `token_length`"@)
    } else if !settings.contains_key("language"@) {
        Err("Missing key: `language`"@)
    } else if settings["language"@] != "CPlusPlus"@ {
        Err("Invalid value for `language`"@)
    } else if !settings.contains_key("extensions"@) {
        Err("Missing key `extensions`"@)
    } else {
        Ok(
            (
                executable_path->0,
                unsigned_value(settings["token_length"@])->0,
                Languages::CPlusPlus,
                split_on(settings["extensions"@], ','),
            ),
        )
    }
}

impl CCFinderSWConfig {
    /// Whether this configuration holds the given values.
    pub open spec fn holds(self, values: (Seq<char>, u32, Languages, Seq<Seq<char>>)) -> bool {
        &&& self.executable_path@ == values.0
        &&& self.token_length == values.1
        &&& self.language == values.2
        &&& texts(self.extensions@) == values.3
    }

    /// The configuration of the detector that the settings of the program
    /// hold. `executable_path` is what the file system resolves the setting
    /// `executable_path` to.
    pub fn try_from_config(config: &Config, executable_path: Option<String>) -> (made: Option<Self>)
        ensures
            match configuration_of(
                config.clone_detector_config@,
                match executable_path {
                    Some(path) => Some(path@),
                    None => None,
                },
            ) {
                Ok(values) => made matches Some(made) && made.holds(values),
                Err(_) => made is None,
            },
    {
        if config.clone_detector_kind != CloneDetectorKind::CCFinderSW {
            None
        } else {
            match CCFinderSWConfig::from_hashmap(&config.clone_detector_config, executable_path) {
                Ok(c) => Some(c),
                Err(_) => None,
            }
        }
    }

    /// The configuration that holds where none is given.
    pub fn default() -> (config: Self)
        ensures
            config.executable_path@ == "CCFinderSW"@,
            config.token_length == 50,
            config.language == Languages::CPlusPlus,
            texts(config.extensions@) == seq!["pde"@, "ino"@],
    {
        let mut extensions: Vec<String> = Vec::new();
        extensions.push(String::from_str("pde"));
        extensions.push(String::from_str("ino"));
        assert(texts(extensions@) =~= seq!["pde"@, "ino"@]);
        CCFinderSWConfig {
            executable_path: String::from_str("CCFinderSW"),
            token_length: 50,
            language: Languages::CPlusPlus,
            extensions,
        }
    }

    /// The settings that stand for this configuration.
    pub fn to_hashmap(&self) -> (settings: Settings)
        ensures
            settings@ == settings_of(
                self.executable_path@,
                self.token_length,
                texts(self.extensions@),
            ),
    {
        let mut settings = Settings::new();
        settings.insert(String::from_str("executable_path"), self.executable_path.clone());
        settings.insert(String::from_str("token_length"), decimal_string(self.token_length as u64));
        settings.insert(String::from_str("language"), serialize_language(&self.language));
        settings.insert(String::from_str("extensions"), join(&self.extensions, ","));
        settings
    }

    /// The setting `executable_path` with the home directory of the user in
    /// the place of a leading tilde, where there is such a directory. This is
    /// the path that the file system is to resolve.
    pub fn expanded_executable_path(hashmap: &Settings) -> (path: Option<String>)
        ensures
            path is Some <==> hashmap@.contains_key("executable_path"@),
            path matches Some(path) ==> {
                let setting = hashmap@["executable_path"@];
                &&& !starts_with_home(setting) ==> path@ == setting
                &&& path@ == setting || exists|home: Seq<char>| path@ == home + setting.skip(1)
            },
    {
        match hashmap.get("executable_path") {
            Some(setting) => Some(expand_tilde(setting.as_str())),
            None => None,
        }
    }

    /// The configuration that settings hold. `executable_path` is what the
    /// file system resolves the setting `executable_path` to.
    pub fn from_hashmap(hashmap: &Settings, executable_path: Option<String>) -> (made: Result<
        Self,
        InvalidConfigurationError,
    >)
        ensures
            match configuration_of(
                hashmap@,
                match executable_path {
                    Some(path) => Some(path@),
                    None => None,
                },
            ) {
                Ok(values) => made matches Ok(made) && made.holds(values),
                Err(description) => made matches Err(error) && error.description@ == description,
            },
    {
        if hashmap.get("executable_path").is_none() {
            return Err(InvalidConfigurationError::new("Missing key: `executable_path`"));
        }
        let executable_path = match executable_path {
            Some(path) => path,
            None => {
                return Err(
                    InvalidConfigurationError::new("Could not canonicalize the specified path."),
                );
            },
        };
        let token_length = match hashmap.get("token_length") {
            Some(value) => match parse_unsigned(value.as_str()) {
                Some(token_length) => token_length,
                None => {
                    return Err(InvalidConfigurationError::new("Invalid value for `token_length`"));
                },
            },
            None => {
                return Err(InvalidConfigurationError::new("Missing key: `token_length`"));
            },
        };
        let language = match hashmap.get("language") {
            Some(value) => match deserialize_language(value.as_str()) {
                Ok(language) => language,
                Err(_) => {
                    return Err(InvalidConfigurationError::new("Invalid value for `language`"));
                },
            },
            None => {
                return Err(InvalidConfigurationError::new("Missing key: `language`"));
            },
        };
        let extensions = match hashmap.get("extensions") {
            Some(value) => split(value.as_str(), ','),
            None => {
                return Err(InvalidConfigurationError::new("Missing key `extensions`"));
            },
        };
        Ok(CCFinderSWConfig { executable_path, token_length, language, extensions })
    }

    pub fn get_executable_path_as_string(&self) -> (path: String)
        ensures
            path@ == self.executable_path@,
    {
        self.executable_path.clone()
    }

    /// The token length as the detector takes it on its command line.
    pub fn token_length_to_option_value(&self) -> (value: String)
        ensures
            value@ == decimal_text(self.token_length as nat),
    {
        decimal_string(self.token_length as u64)
    }

    /// The language as the detector takes it on its command line.
    pub fn language_to_option_value(&self) -> (value: String)
        ensures
            value@ == "cpp"@,
    {
        match self.language {
            Languages::CPlusPlus => String::from_str("cpp"),
        }
    }

    /// The extensions as the detector takes them on its command line.
    pub fn extensions_to_option_value(&self) -> (value: String)
        ensures
            value@ == join_with(texts(self.extensions@), "|"@),
    {
        join(&self.extensions, "|")
    }
}

/// The settings that stand for a configuration give that configuration back,
/// where the configuration has an extension and no extension holds a comma,
/// and where the file system resolves the path of the executable to itself.
pub proof fn lemma_written_configuration_is_read_back(
    executable_path: Seq<char>,
    token_length: u32,
    extensions: Seq<Seq<char>>,
)
    requires
        extensions.len() > 0,
        free_of(extensions, ','),
    ensures
        configuration_of(
            settings_of(executable_path, token_length, extensions),
            Some(executable_path),
        ) == Ok::<(Seq<char>, u32, Languages, Seq<Seq<char>>), Seq<char>>(
            (executable_path, token_length, Languages::CPlusPlus, extensions),
        ),
{
    reveal_strlit("executable_path");
    reveal_strlit("token_length");
    reveal_strlit("language");
    reveal_strlit("extensions");
    reveal_strlit(",");
    let settings = settings_of(executable_path, token_length, extensions);
    assert("executable_path"@.len() == 15 && "token_length"@.len() == 12 && "language"@.len() == 8
        && "extensions"@.len() == 10);
    assert(","@ =~= seq![',']);
    lemma_written_number_is_read_back(token_length);
    lemma_joined_parts_are_split_again(extensions, ',');
    assert(settings["executable_path"@] == executable_path);
    assert(settings["token_length"@] == decimal_text(token_length as nat));
    assert(settings["language"@] == "CPlusPlus"@);
    assert(settings["extensions"@] == join_with(extensions, ","@));
}

} // verus!
