//! What the program is started with.

use vstd::prelude::*;
use vstd::string::*;

use crate::filesystem::{join_path, path_join};

verus! {

/// The model that is asked, and where the program works.
#[derive(Debug)]
pub struct Config {
    pub provider: String,
    pub model: String,
    pub api_key: Option<String>,
    pub working_dir: String,
    pub log_dir: String,
}

/// The model of [`Config`].
#[verifier::ext_equal]
pub struct ConfigView {
    pub provider: Seq<char>,
    pub model: Seq<char>,
    pub api_key: Option<Seq<char>>,
    pub working_dir: Seq<char>,
    pub log_dir: Seq<char>,
}

impl DeepView for Config {
    type V = ConfigView;

    open spec fn deep_view(&self) -> ConfigView {
        ConfigView {
            provider: self.provider.deep_view(),
            model: self.model.deep_view(),
            api_key: self.api_key.deep_view(),
            working_dir: self.working_dir.deep_view(),
            log_dir: self.log_dir.deep_view(),
        }
    }
}

impl Clone for Config {
    fn clone(&self) -> (r: Self)
        ensures
            r.deep_view() == self.deep_view(),
    {
        let r = Config {
            provider: self.provider.clone(),
            model: self.model.clone(),
            api_key: self.api_key.clone(),
            working_dir: self.working_dir.clone(),
            log_dir: self.log_dir.clone(),
        };
        assert(r.api_key.deep_view() =~= self.api_key.deep_view());
        r
    }
}

impl Config {
    /// The configuration for a model, in the current directory if that is known. Logs are
    /// kept below it, and no key is set.
    pub fn new(provider: &str, model: &str, current_dir: Option<String>) -> (r: Config)
        ensures
            r.deep_view() == ({
                let working_dir = match current_dir {
                    Some(dir) => dir@,
                    None => "."@,
                };
                ConfigView {
                    provider: provider@,
                    model: model@,
                    api_key: None,
                    working_dir,
                    log_dir: path_join(path_join(working_dir, ".quine"@), "logs"@),
                }
            }),
    {
        let working_dir = match current_dir {
            Some(dir) => dir,
            None => ".".to_owned(),
        };
        let quine_dir = join_path(working_dir.as_str(), ".quine");
        let log_dir = join_path(quine_dir.as_str(), "logs");
        Config {
            provider: provider.to_owned(),
            model: model.to_owned(),
            api_key: None,
            working_dir,
            log_dir,
        }
    }
}

} // verus!
