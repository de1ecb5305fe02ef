//! The saved configuration.

use crate::paths;
use crate::text;
use vstd::prelude::*;

verus! {

/// The context window of a registered model that names none.
pub fn default_context_window() -> (r: usize)
    ensures
        r == 4096,
{
    4096
}

/// A model that the user registered.
pub struct ModelEntry {
    pub name: String,
    pub hf_repo: String,
    pub hf_file: String,
    pub context_window: usize,
}

/// What a [`ModelEntry`] says.
#[verifier::ext_equal]
pub struct ModelEntryView {
    pub name: Seq<char>,
    pub hf_repo: Seq<char>,
    pub hf_file: Seq<char>,
    pub context_window: usize,
}

impl View for ModelEntry {
    type V = ModelEntryView;

    open spec fn view(&self) -> ModelEntryView {
        ModelEntryView {
            name: self.name@,
            hf_repo: self.hf_repo@,
            hf_file: self.hf_file@,
            context_window: self.context_window,
        }
    }
}

impl Clone for ModelEntry {
    fn clone(&self) -> (r: Self)
        ensures
            r@ == self@,
    {
        ModelEntry {
            name: self.name.clone(),
            hf_repo: self.hf_repo.clone(),
            hf_file: self.hf_file.clone(),
            context_window: self.context_window,
        }
    }
}

pub open spec fn entry_views(v: Seq<ModelEntry>) -> Seq<ModelEntryView> {
    v.map_values(|m: ModelEntry| m@)
}

/// The saved configuration.
pub struct AxonConfig {
    pub model: Option<String>,
    pub backend: Option<String>,
    pub ollama_url: Option<String>,
    pub context_window: Option<usize>,
    pub no_download: Option<bool>,
    pub models: Vec<ModelEntry>,
}

/// What an [`AxonConfig`] says.
#[verifier::ext_equal]
pub struct AxonConfigView {
    pub model: Option<Seq<char>>,
    pub backend: Option<Seq<char>>,
    pub ollama_url: Option<Seq<char>>,
    pub context_window: Option<usize>,
    pub no_download: Option<bool>,
    pub models: Seq<ModelEntryView>,
}

impl View for AxonConfig {
    type V = AxonConfigView;

    open spec fn view(&self) -> AxonConfigView {
        AxonConfigView {
            model: text::option_view(self.model),
            backend: text::option_view(self.backend),
            ollama_url: text::option_view(self.ollama_url),
            context_window: self.context_window,
            no_download: self.no_download,
            models: entry_views(self.models@),
        }
    }
}

/// The configuration in which nothing is set.
pub open spec fn empty_config() -> AxonConfigView {
    AxonConfigView {
        model: None,
        backend: None,
        ollama_url: None,
        context_window: None,
        no_download: None,
        models: Seq::empty(),
    }
}

impl Default for AxonConfig {
    fn default() -> (r: Self)
        ensures
            r@ == empty_config(),
    {
        let r = AxonConfig {
            model: None,
            backend: None,
            ollama_url: None,
            context_window: None,
            no_download: None,
            models: Vec::new(),
        };
        assert(r@ =~= empty_config());
        r
    }
}

/// The first registered model with the name `name`.
pub open spec fn registered(models: Seq<ModelEntryView>, name: Seq<char>) -> Option<ModelEntryView>
    decreases models.len(),
{
    if models.len() == 0 {
        None
    } else if models[0].name == name {
        Some(models[0])
    } else {
        registered(models.drop_first(), name)
    }
}

/// The configuration after `key` was set to `value`, or why it cannot be.
pub open spec fn with_value(c: AxonConfigView, key: Seq<char>, value: Seq<char>) -> Result<
    AxonConfigView,
    Seq<char>,
> {
    if key == "model"@ {
        Ok(AxonConfigView { model: Some(value), ..c })
    } else if key == "backend"@ {
        Ok(AxonConfigView { backend: Some(value), ..c })
    } else if key == "ollama-url"@ {
        Ok(AxonConfigView { ollama_url: Some(value), ..c })
    } else if key == "context-window"@ {
        match text::size_in(value) {
            Some(n) => Ok(AxonConfigView { context_window: Some(n), ..c }),
            None => Err("context-window must be a positive integer"@),
        }
    } else if key == "no-download"@ {
        if value == "true"@ {
            Ok(AxonConfigView { no_download: Some(true), ..c })
        } else if value == "false"@ {
            Ok(AxonConfigView { no_download: Some(false), ..c })
        } else {
            Err("no-download must be true or false"@)
        }
    } else {
        Err(
            "unknown config key '"@ + key
                + "'. Valid keys: model, backend, ollama-url, context-window, no-download"@,
        )
    }
}

impl AxonConfig {
    /// The file that holds the configuration of the user whose home is `home`.
    pub fn path(home: Option<&str>) -> (r: Result<String, String>)
        ensures
            match home {
                Some(h) => r matches Ok(p) && p@ == paths::below(
                    paths::below(h@, ".axon"@),
                    "config.toml"@,
                ),
                None => r matches Err(e) && e@ == "HOME environment variable not set"@,
            },
    {
        match home {
            Some(h) => Ok(paths::join(paths::join(h, ".axon").as_str(), "config.toml")),
            None => Err("HOME environment variable not set".to_string()),
        }
    }

    /// Sets `key` to `value`; where that is refused nothing changes.
    pub fn set(&mut self, key: &str, value: &str) -> (r: Result<(), String>)
        ensures
            match with_value(old(self)@, key@, value@) {
                Ok(c) => r is Ok && final(self)@ == c,
                Err(m) => r matches Err(e) && e@ == m && final(self)@ == old(self)@,
            },
    {
        if text::same(key, "model") {
            self.model = Some(value.to_string());
        } else if text::same(key, "backend") {
            self.backend = Some(value.to_string());
        } else if text::same(key, "ollama-url") {
            self.ollama_url = Some(value.to_string());
        } else if text::same(key, "context-window") {
            match text::parse_usize(value) {
                Some(n) => {
                    self.context_window = Some(n);
                },
                None => {
                    return Err("context-window must be a positive integer".to_string());
                },
            }
        } else if text::same(key, "no-download") {
            if text::same(value, "true") {
                self.no_download = Some(true);
            } else if text::same(value, "false") {
                self.no_download = Some(false);
            } else {
                return Err("no-download must be true or false".to_string());
            }
        } else {
            let mut m = "unknown config key '".to_string();
            m.append(key);
            m.append("'. Valid keys: model, backend, ollama-url, context-window, no-download");
            return Err(m);
        }
        Ok(())
    }

    /// The first registered model with the name `name`.
    pub fn find_model(&self, name: &str) -> (r: Option<&ModelEntry>)
        ensures
            registered(self@.models, name@) == match r {
                Some(m) => Some(m@),
                None => None,
            },
    {
        let mut i: usize = 0;
        let ghost all = self@.models;
        assert(all.skip(0) =~= all);
        while i < self.models.len()
            invariant
                i <= self.models.len(),
                all == entry_views(self.models@),
                registered(all, name@) == registered(all.skip(i as int), name@),
            decreases self.models.len() - i,
        {
            assert(all.skip(i as int)[0] == self.models[i as int]@);
            assert(all.skip(i as int).drop_first() =~= all.skip(i + 1));
            if text::same(self.models[i].name.as_str(), name) {
                return Some(&self.models[i]);
            }
            i += 1;
        }
        None
    }
}

/// What was set last is what the configuration holds, and setting one key leaves the
/// registered models alone.
pub proof fn law_set_is_read_back(c: AxonConfigView, value: Seq<char>)
    ensures
        with_value(c, "model"@, value) == Ok::<_, Seq<char>>(
            (AxonConfigView { model: Some(value), ..c }),
        ),
        with_value(c, "backend"@, value) == Ok::<_, Seq<char>>(
            (AxonConfigView { backend: Some(value), ..c }),
        ),
        with_value(c, "ollama-url"@, value) == Ok::<_, Seq<char>>(
            (AxonConfigView { ollama_url: Some(value), ..c }),
        ),
        forall|key: Seq<char>|
            #![trigger with_value(c, key, value)]
            with_value(c, key, value) matches Ok(d) ==> d.models == c.models,
{
    reveal_strlit("model");
    reveal_strlit("backend");
    reveal_strlit("ollama-url");
    assert("model"@.len() == 5 && "backend"@.len() == 7 && "ollama-url"@.len() == 10);
}

/// Every key that there is can be set, changes the one thing that it names, and refuses what it
/// cannot take; any other key is refused, and what is refused changes nothing.
pub proof fn law_keys(c: AxonConfigView, key: Seq<char>, value: Seq<char>)
    ensures
        with_value(c, "context-window"@, value) == match text::number_in(
            value,
            usize::MAX as nat,
        ) {
            Some(n) => Ok::<_, Seq<char>>(
                (AxonConfigView { context_window: Some(n as usize), ..c }),
            ),
            None => Err("context-window must be a positive integer"@),
        },
        with_value(c, "no-download"@, "true"@) == Ok::<_, Seq<char>>(
            (AxonConfigView { no_download: Some(true), ..c }),
        ),
        with_value(c, "no-download"@, "false"@) == Ok::<_, Seq<char>>(
            (AxonConfigView { no_download: Some(false), ..c }),
        ),
        value != "true"@ && value != "false"@ ==> with_value(c, "no-download"@, value) is Err,
        key != "model"@ && key != "backend"@ && key != "ollama-url"@ && key != "context-window"@
            && key != "no-download"@ ==> with_value(c, key, value) is Err,
{
    reveal_strlit("model");
    reveal_strlit("backend");
    reveal_strlit("ollama-url");
    reveal_strlit("context-window");
    reveal_strlit("no-download");
    reveal_strlit("true");
    reveal_strlit("false");
    assert("model"@.len() == 5 && "backend"@.len() == 7 && "ollama-url"@.len() == 10);
    assert("context-window"@.len() == 14 && "no-download"@.len() == 11);
    assert("true"@.len() == 4 && "false"@.len() == 5);
}

/// A registered model is found by its name, the first of several; without one of that name
/// nothing is found.
pub proof fn law_first_of_a_name(models: Seq<ModelEntryView>, i: int, name: Seq<char>)
    ensures
        0 <= i < models.len() && models[i].name == name && (forall|j: int|
            0 <= j < i ==> (#[trigger] models[j]).name != name) ==> registered(models, name)
            == Some(models[i]),
        (forall|j: int| 0 <= j < models.len() ==> (#[trigger] models[j]).name != name)
            ==> registered(models, name) is None,
    decreases models.len(),
{
    if models.len() > 0 {
        let rest = models.drop_first();
        law_first_of_a_name(rest, i - 1, name);
        if 0 < i < models.len() && models[i].name == name && (forall|j: int|
            0 <= j < i ==> (#[trigger] models[j]).name != name) {
            assert(models[0].name != name);
            assert(rest[i - 1] == models[i]);
            assert forall|j: int| 0 <= j < i - 1 implies (#[trigger] rest[j]).name != name by {
                assert(rest[j] == models[j + 1]);
            }
        }
        if forall|j: int| 0 <= j < models.len() ==> (#[trigger] models[j]).name != name {
            assert(models[0].name != name);
            assert forall|j: int| 0 <= j < rest.len() implies (#[trigger] rest[j]).name != name by {
                assert(rest[j] == models[j + 1]);
            }
        }
    }
}

/// Nothing is set in an empty configuration, and no model is registered in it.
pub proof fn law_empty_configuration(name: Seq<char>)
    ensures
        empty_config().model is None && empty_config().backend is None && empty_config().ollama_url
            is None && empty_config().context_window is None && empty_config().no_download is None,
        registered(empty_config().models, name) is None,
{
}

} // verus!
