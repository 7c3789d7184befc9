//! The dialog for the settings of the assistant.

use vstd::prelude::*;

use crate::dropdown::DropdownCloseReason;
use crate::focus;
use crate::state::{Mode, Spreadsheet};
use crate::text;

verus! {

#[derive(Debug, Clone, Copy, PartialEq, Eq, Structural)]
pub enum AIProviderOption {
    Disabled,
    Local,
    OpenAI,
    Anthropic,
    Gemini,
    Grok,
}

#[derive(Debug, Clone, Copy, PartialEq, Eq, Structural)]
pub enum AISettingsFocus {
    Provider,
    Model,
    Endpoint,
    KeyInput,
}

/// What a look at the settings came to.
#[derive(Debug, PartialEq, Eq)]
pub enum AITestStatus {
    Idle,
    Testing,
    Success(String),
    Error(String),
}

/// The dialog.
#[derive(Debug, PartialEq, Eq)]
pub struct AiSettings {
    pub provider: AIProviderOption,
    pub model: String,
    pub endpoint: String,
    pub key_input: String,
    pub key_present: bool,
    pub key_source: String,
    pub error: Option<String>,
    pub focus: AISettingsFocus,
    pub provider_dropdown_open: bool,
    pub test_status: AITestStatus,
}

/// The settings of the assistant in a window: the dialog, and the key that was
/// entered since the program was started.
#[derive(Debug, PartialEq, Eq)]
pub struct AiState {
    pub settings: AiSettings,
    pub session_key: Option<String>,
    pub key_validated: bool,
}

/// A key, and the provider that it is for.
#[derive(Debug, PartialEq, Eq)]
pub struct ProviderKey {
    pub provider: String,
    pub key: String,
}

/// What the settings come to.
#[derive(Debug, PartialEq, Eq)]
pub enum ConfigVerdict {
    Valid(String),
    Invalid(String),
    Skipped(String),
}

/// The dialog before anything was entered.
pub open spec fn no_settings(s: AiSettings) -> bool {
    &&& s.provider == AIProviderOption::Disabled
    &&& s.model@.len() == 0 && s.endpoint@.len() == 0 && s.key_input@.len() == 0
    &&& !s.key_present && s.key_source@ == "none"@
    &&& s.error is None && s.focus == AISettingsFocus::Provider && !s.provider_dropdown_open
    &&& s.test_status == AITestStatus::Idle
}

impl AiSettings {
    pub fn new() -> (s: AiSettings)
        ensures
            no_settings(s),
    {
        AiSettings {
            provider: AIProviderOption::Disabled,
            model: String::new(),
            endpoint: String::new(),
            key_input: String::new(),
            key_present: false,
            key_source: text::lit("none"),
            error: None,
            focus: AISettingsFocus::Provider,
            provider_dropdown_open: false,
            test_status: AITestStatus::Idle,
        }
    }

    /// The provider works with a key.
    pub open spec fn wants_key(self) -> bool {
        key_name(self.provider) is Some
    }

    pub fn needs_api_key(&self) -> (r: bool)
        ensures
            r == self.wants_key(),
    {
        provider_name(self.provider).is_some()
    }
}

/// The settings of the assistant in a new window.
pub open spec fn no_ai(a: AiState) -> bool {
    no_settings(a.settings) && a.session_key is None && !a.key_validated
}

impl AiState {
    pub fn new() -> (a: AiState)
        ensures
            no_ai(a),
    {
        AiState { settings: AiSettings::new(), session_key: None, key_validated: false }
    }
}

/// The name under which the key of a provider is kept.
pub open spec fn key_name(p: AIProviderOption) -> Option<Seq<char>> {
    match p {
        AIProviderOption::OpenAI => Some("openai"@),
        AIProviderOption::Anthropic => Some("anthropic"@),
        AIProviderOption::Gemini => Some("gemini"@),
        AIProviderOption::Grok => Some("grok"@),
        _ => None,
    }
}

fn provider_name(p: AIProviderOption) -> (r: Option<String>)
    ensures
        text::opt_text(r) == key_name(p),
{
    match p {
        AIProviderOption::OpenAI => Some(text::lit("openai")),
        AIProviderOption::Anthropic => Some(text::lit("anthropic")),
        AIProviderOption::Gemini => Some(text::lit("gemini")),
        AIProviderOption::Grok => Some(text::lit("grok")),
        _ => None,
    }
}

/// Only the error of the dialog is another one.
pub open spec fn settings_error(old: Spreadsheet, new: Spreadsheet, e: Seq<char>) -> bool {
    &&& new == (Spreadsheet {
        ai: AiState {
            settings: AiSettings { error: new.ai.settings.error, ..old.ai.settings },
            ..old.ai
        },
        ..old
    })
    &&& text::opt_text(new.ai.settings.error) == Some(e)
}

/// The dialog is closed.
pub open spec fn settings_closed(old: Spreadsheet, new: Spreadsheet) -> bool {
    &&& new == (Spreadsheet {
        mode: Mode::Navigation,
        ai: AiState { settings: new.ai.settings, ..old.ai },
        ..old
    })
    &&& no_settings(new.ai.settings)
}

/// A control character.
pub open spec fn is_control(c: char) -> bool {
    (c as u32) < 0x20 || 0x7f <= (c as u32) <= 0x9f
}

/// A text without control characters, but for new lines where they are kept.
pub open spec fn without_controls(s: Seq<char>, keep_lines: bool) -> Seq<char>
    decreases s.len(),
{
    if s.len() == 0 {
        Seq::empty()
    } else {
        let rest = without_controls(s.drop_last(), keep_lines);
        if is_control(s.last()) && !(keep_lines && s.last() == '\n') {
            rest
        } else {
            rest.push(s.last())
        }
    }
}

/// A text without control characters, but for new lines where they are kept.
pub fn clean_text(s: &str, keep_lines: bool) -> (r: String)
    ensures
        r@ == without_controls(s@, keep_lines),
{
    let v = text::chars_of(s);
    let mut r = String::new();
    let mut i: usize = 0;
    assert(v@.take(0) =~= Seq::empty());
    while i < v.len()
        invariant
            i <= v@.len(),
            r@ == without_controls(v@.take(i as int), keep_lines),
        decreases v@.len() - i,
    {
        assert(v@.take(i + 1).drop_last() =~= v@.take(i as int));
        assert(v@.take(i + 1).last() == v@[i as int]);
        let c = v[i];
        let u: u32 = c as u32;
        let control = u < 0x20 || (0x7f <= u && u <= 0x9f);
        if !control || (keep_lines && c == '\n') {
            r.push(c);
        }
        i = i + 1;
    }
    assert(v@.take(v@.len() as int) =~= v@);
    r
}

/// The field with the focus is edited; typing forgets what was wrong.
pub open spec fn setting_edited(
    old: AiSettings,
    new: AiSettings,
    forgets: bool,
    edit: spec_fn(Seq<char>) -> Seq<char>,
) -> bool {
    let error = if forgets {
        None
    } else {
        old.error
    };
    match old.focus {
        AISettingsFocus::Model => new == (AiSettings { model: new.model, error, ..old })
            && new.model@ == edit(old.model@),
        AISettingsFocus::Endpoint => new == (AiSettings { endpoint: new.endpoint, error, ..old })
            && new.endpoint@ == edit(old.endpoint@),
        AISettingsFocus::KeyInput => new == (AiSettings {
            key_input: new.key_input,
            error,
            ..old
        }) && new.key_input@ == edit(old.key_input@),
        AISettingsFocus::Provider => new == old,
    }
}

/// The fields that the choice of a provider leaves.
pub open spec fn settings_fields(p: AIProviderOption) -> Seq<AISettingsFocus> {
    match p {
        AIProviderOption::Disabled => seq![AISettingsFocus::Provider],
        AIProviderOption::Local => seq![
            AISettingsFocus::Provider,
            AISettingsFocus::Model,
            AISettingsFocus::Endpoint,
        ],
        _ => seq![AISettingsFocus::Provider, AISettingsFocus::Model, AISettingsFocus::KeyInput],
    }
}

fn fields_for(p: AIProviderOption) -> (v: Vec<AISettingsFocus>)
    ensures
        v@ == settings_fields(p),
        v@.len() > 0,
{
    let mut v: Vec<AISettingsFocus> = Vec::new();
    v.push(AISettingsFocus::Provider);
    match p {
        AIProviderOption::Disabled => {},
        AIProviderOption::Local => {
            v.push(AISettingsFocus::Model);
            v.push(AISettingsFocus::Endpoint);
        },
        _ => {
            v.push(AISettingsFocus::Model);
            v.push(AISettingsFocus::KeyInput);
        },
    }
    assert(v@ =~= settings_fields(p));
    v
}

fn focus_place(fields: &Vec<AISettingsFocus>, f: AISettingsFocus) -> (at: usize)
    requires
        fields@.len() > 0,
    ensures
        at == focus::place_of(fields@, f),
        at < fields@.len(),
{
    let mut i: usize = 0;
    while i < fields.len()
        invariant
            i <= fields@.len(),
            forall|k: int| 0 <= k < i ==> fields@[k] != f,
        decreases fields@.len() - i,
    {
        if fields[i] == f {
            proof {
                focus::lemma_place_of(fields@, f, i as int);
            }
            return i;
        }
        i = i + 1;
    }
    proof {
        focus::lemma_place_of(fields@, f, 0);
    }
    0
}

/// The key that is entered, without space around it.
pub open spec fn entered_key(s: AiSettings) -> Seq<char> {
    text::trimmed(s.key_input@)
}

impl Spreadsheet {
    /// Open the dialog with the settings as they are kept.
    pub fn show_ai_settings(&mut self, kept: AiSettings)
        ensures
            *final(self) == (Spreadsheet {
                mode: Mode::AiSettings,
                lua_console_visible: false,
                dropdown: None,
                ai: AiState { settings: kept, ..old(self).ai },
                ..*old(self)
            }),
    {
        self.close_validation_dropdown(DropdownCloseReason::ModalOpened);
        self.lua_console_visible = false;
        self.ai.settings = kept;
        self.mode = Mode::AiSettings;
    }

    /// Close the dialog.
    pub fn hide_ai_settings(&mut self)
        ensures
            settings_closed(*old(self), *final(self)),
    {
        self.mode = Mode::Navigation;
        self.ai.settings = AiSettings::new();
    }

    /// The settings were kept, or could not be. `label` is the name of the
    /// provider, and `model` the one that is used.
    pub fn apply_ai_settings(&mut self, kept: Result<(), String>, label: &str, model: &str)
        ensures
            match kept {
                Err(e) => settings_error(*old(self), *final(self), "Failed to save: "@ + e@),
                Ok(_) => {
                    &&& settings_closed(
                        (Spreadsheet { status_message: final(self).status_message, ..*old(self) }),
                        *final(self),
                    )
                    &&& text::opt_text(final(self).status_message) == Some(
                        "AI settings updated: "@ + if old(self).ai.settings.provider
                            == AIProviderOption::Disabled {
                            "AI disabled"@
                        } else {
                            label@ + " ("@ + model@ + ")"@
                        },
                    )
                },
            },
    {
        match kept {
            Err(e) => {
                self.ai.settings.error = Some(text::cat("Failed to save: ", e.as_str()));
            },
            Ok(_) => {
                if self.ai.settings.provider == AIProviderOption::Disabled {
                    self.say_with("AI settings updated: ", "AI disabled");
                } else {
                    let mut d = text::cat3(label, " (", model);
                    d.append(")");
                    self.say_with("AI settings updated: ", d.as_str());
                }
                self.hide_ai_settings();
            },
        }
    }

    /// Keep the key that is entered: the result is what has to be kept, if it
    /// can be.
    pub fn ai_settings_set_key(&mut self) -> (r: Option<ProviderKey>)
        ensures
            key_entered(*old(self), *final(self), r),
    {
        let key = text::trim(self.ai.settings.key_input.as_str());
        proof {
            reveal_strlit("");
            if key@.len() == 0 {
                assert(key@ =~= ""@);
            }
        }
        if text::str_eq(key.as_str(), "") {
            self.ai.settings.error = Some(text::lit("API key cannot be empty"));
            return None;
        }
        match provider_name(self.ai.settings.provider) {
            None => {
                self.ai.settings.error = Some(text::lit("Select a provider first"));
                None
            },
            Some(provider) => Some(ProviderKey { provider, key }),
        }
    }

    /// The key was kept, or could not be.
    pub fn ai_key_stored(&mut self, key: &str, stored: Result<(), String>, label: &str)
        ensures
            key_stored(*old(self), *final(self), key@, stored, label@),
    {
        match stored {
            Err(e) => {
                self.ai.settings.error = Some(e);
            },
            Ok(_) => {
                self.ai.settings.key_present = true;
                self.ai.settings.key_source = text::lit("keychain");
                self.ai.session_key = Some(text::lit(key));
                self.ai.settings.key_input = String::new();
                self.ai.settings.error = None;
                self.ai.key_validated = true;
                self.say_with(label, " API key saved to keychain");
            },
        }
    }

    /// Remove the key of the provider: the result is the name under which it is
    /// kept.
    pub fn ai_settings_clear_key(&self) -> (r: Option<String>)
        ensures
            text::opt_text(r) == key_name(self.ai.settings.provider),
    {
        provider_name(self.ai.settings.provider)
    }

    /// The key was removed, or could not be.
    pub fn ai_key_removed(&mut self, removed: Result<(), String>, label: &str)
        ensures
            key_removed(*old(self), *final(self), removed, label@),
    {
        match removed {
            Err(e) => {
                self.ai.settings.error = Some(e);
            },
            Ok(_) => {
                self.ai.settings.key_present = false;
                self.ai.settings.key_source = text::lit("none");
                self.ai.key_validated = false;
                self.ai.session_key = None;
                self.say_with(label, " API key removed");
            },
        }
    }

    /// A character was typed.
    pub fn ai_settings_type_char(&mut self, c: char)
        ensures
            *final(self) == (Spreadsheet {
                ai: AiState { settings: final(self).ai.settings, ..old(self).ai },
                ..*old(self)
            }),
            setting_edited(
                old(self).ai.settings,
                final(self).ai.settings,
                true,
                |s: Seq<char>| s.push(c),
            ),
    {
        match self.ai.settings.focus {
            AISettingsFocus::Model => {
                self.ai.settings.model.push(c);
                self.ai.settings.error = None;
            },
            AISettingsFocus::Endpoint => {
                self.ai.settings.endpoint.push(c);
                self.ai.settings.error = None;
            },
            AISettingsFocus::KeyInput => {
                self.ai.settings.key_input.push(c);
                self.ai.settings.error = None;
            },
            AISettingsFocus::Provider => {},
        }
    }

    /// The last character is taken back.
    pub fn ai_settings_backspace(&mut self)
        ensures
            *final(self) == (Spreadsheet {
                ai: AiState { settings: final(self).ai.settings, ..old(self).ai },
                ..*old(self)
            }),
            setting_edited(
                old(self).ai.settings,
                final(self).ai.settings,
                false,
                |s: Seq<char>| text::shortened(s),
            ),
    {
        match self.ai.settings.focus {
            AISettingsFocus::Model => {
                self.ai.settings.model.pop();
            },
            AISettingsFocus::Endpoint => {
                self.ai.settings.endpoint.pop();
            },
            AISettingsFocus::KeyInput => {
                self.ai.settings.key_input.pop();
            },
            AISettingsFocus::Provider => {},
        }
    }

    /// A text was pasted; its control characters are left out.
    pub fn ai_settings_paste(&mut self, pasted: &str)
        ensures
            *final(self) == (Spreadsheet {
                ai: AiState { settings: final(self).ai.settings, ..old(self).ai },
                ..*old(self)
            }),
            setting_edited(
                old(self).ai.settings,
                final(self).ai.settings,
                false,
                |s: Seq<char>| s + without_controls(pasted@, false),
            ),
    {
        let clean = clean_text(pasted, false);
        match self.ai.settings.focus {
            AISettingsFocus::Model => {
                self.ai.settings.model.append(clean.as_str());
            },
            AISettingsFocus::Endpoint => {
                self.ai.settings.endpoint.append(clean.as_str());
            },
            AISettingsFocus::KeyInput => {
                self.ai.settings.key_input.append(clean.as_str());
            },
            AISettingsFocus::Provider => {},
        }
    }

    /// Go to the next field of the dialog, or to the previous one.
    pub fn ai_settings_tab(&mut self, shift: bool)
        ensures
            *final(self) == (Spreadsheet {
                ai: AiState {
                    settings: AiSettings {
                        focus: focus::field_after(
                            settings_fields(old(self).ai.settings.provider),
                            old(self).ai.settings.focus,
                            shift,
                        ),
                        provider_dropdown_open: false,
                        ..old(self).ai.settings
                    },
                    ..old(self).ai
                },
                ..*old(self)
            }),
    {
        self.ai.settings.provider_dropdown_open = false;
        let fields = fields_for(self.ai.settings.provider);
        let at = focus_place(&fields, self.ai.settings.focus);
        let next = focus::step(fields.len(), at, shift);
        self.ai.settings.focus = fields[next];
    }

    /// Look at the settings. A provider that works with a key only needs one;
    /// for any other the result is that the settings have to be looked at as a
    /// whole, which is finished by [`Spreadsheet::ai_config_validated`].
    pub fn ai_settings_test_connection(&mut self, label: &str) -> (look: bool)
        ensures
            look == !old(self).ai.settings.wants_key(),
            *final(self) == (Spreadsheet {
                ai: AiState {
                    settings: AiSettings {
                        test_status: final(self).ai.settings.test_status,
                        ..old(self).ai.settings
                    },
                    ..old(self).ai
                },
                ..*old(self)
            }),
            if look {
                final(self).ai.settings.test_status == AITestStatus::Testing
            } else if old(self).ai.settings.key_present {
                final(self).ai.settings.test_status matches AITestStatus::Success(m) && m@
                    == "API key present ("@ + old(self).ai.settings.key_source@ + ") - "@ + label@
                    + " configured"@
            } else {
                final(self).ai.settings.test_status matches AITestStatus::Error(m) && m@
                    == "No API key configured"@
            },
    {
        if !self.ai.settings.needs_api_key() {
            self.ai.settings.test_status = AITestStatus::Testing;
            return true;
        }
        if self.ai.settings.key_present {
            let mut m = text::cat3(
                "API key present (",
                self.ai.settings.key_source.as_str(),
                ") - ",
            );
            m.append(label);
            m.append(" configured");
            self.ai.settings.test_status = AITestStatus::Success(m);
        } else {
            self.ai.settings.test_status = AITestStatus::Error(text::lit("No API key configured"));
        }
        false
    }

    /// The settings were looked at as a whole.
    pub fn ai_config_validated(&mut self, verdict: ConfigVerdict)
        ensures
            config_validated(*old(self), *final(self), verdict),
    {
        self.ai.settings.test_status = match verdict {
            ConfigVerdict::Valid(m) => AITestStatus::Success(m),
            ConfigVerdict::Skipped(m) => AITestStatus::Success(m),
            ConfigVerdict::Invalid(m) => if text::contains(m.as_str(), "API key")
                && self.ai.settings.key_present {
                AITestStatus::Success(
                    text::cat3(
                        "API key present (",
                        self.ai.settings.key_source.as_str(),
                        ") - configured",
                    ),
                )
            } else {
                AITestStatus::Error(m)
            },
        };
    }
}

/// A key is to be kept for the provider.
pub open spec fn key_entered(
    old: Spreadsheet,
    new: Spreadsheet,
    r: Option<ProviderKey>,
) -> bool {
    &&& ({
        let s = old.ai.settings;
        if entered_key(s).len() == 0 {
            r is None && settings_error(
                old,
                new,
                "API key cannot be empty"@,
            )
        } else {
            match key_name(s.provider) {
                None => r is None && settings_error(
                    old,
                    new,
                    "Select a provider first"@,
                ),
                Some(p) => {
                    &&& r matches Some(k) && k.provider@ == p && k.key@ == entered_key(s)
                    &&& new == old
                },
            }
        }
    })
}

/// A key was to be kept.
pub open spec fn key_stored(
    old: Spreadsheet,
    new: Spreadsheet,
    key: Seq<char>,
    stored: Result<(), String>,
    label: Seq<char>,
) -> bool {
    &&& match stored {
        Err(e) => settings_error(old, new, e@),
        Ok(_) => {
            &&& new == (Spreadsheet {
                status_message: new.status_message,
                ai: new.ai,
                ..old
            })
            &&& new.ai == (AiState {
                settings: new.ai.settings,
                session_key: new.ai.session_key,
                key_validated: true,
            })
            &&& new.ai.settings == (AiSettings {
                key_present: true,
                key_source: new.ai.settings.key_source,
                key_input: new.ai.settings.key_input,
                error: None,
                ..old.ai.settings
            })
            &&& new.ai.settings.key_source@ == "keychain"@
            &&& new.ai.settings.key_input@.len() == 0
            &&& text::opt_text(new.ai.session_key) == Some(key)
            &&& text::opt_text(new.status_message) == Some(
                label + " API key saved to keychain"@,
            )
        },
    }
}

/// A key was to be forgotten.
pub open spec fn key_removed(
    old: Spreadsheet,
    new: Spreadsheet,
    removed: Result<(), String>,
    label: Seq<char>,
) -> bool {
    &&& match removed {
        Err(e) => settings_error(old, new, e@),
        Ok(_) => {
            &&& new == (Spreadsheet {
                status_message: new.status_message,
                ai: AiState {
                    settings: AiSettings {
                        key_present: false,
                        key_source: new.ai.settings.key_source,
                        ..old.ai.settings
                    },
                    session_key: None,
                    key_validated: false,
                },
                ..old
            })
            &&& new.ai.settings.key_source@ == "none"@
            &&& text::opt_text(new.status_message) == Some(
                label + " API key removed"@,
            )
        },
    }
}

/// The settings were tried.
pub open spec fn config_validated(
    old: Spreadsheet,
    new: Spreadsheet,
    verdict: ConfigVerdict,
) -> bool {
    &&& new == (Spreadsheet {
        ai: AiState {
            settings: AiSettings {
                test_status: new.ai.settings.test_status,
                ..old.ai.settings
            },
            ..old.ai
        },
        ..old
    })
    &&& match verdict {
        ConfigVerdict::Valid(m) => new.ai.settings.test_status
            == AITestStatus::Success(m),
        ConfigVerdict::Skipped(m) => new.ai.settings.test_status
            == AITestStatus::Success(m),
        ConfigVerdict::Invalid(m) => if text::contains_text(m@, "API key"@) && old.ai.settings.key_present {
            new.ai.settings.test_status matches AITestStatus::Success(n) && n@
                == "API key present ("@ + old.ai.settings.key_source@
                + ") - configured"@
        } else {
            new.ai.settings.test_status == AITestStatus::Error(m)
        },
    }
}

// ---------------------------------------------------------------------------
// Laws
// ---------------------------------------------------------------------------

/// The providers that take a key have one each, under a name of its own; a local one and none at all take
/// none.
pub proof fn keys_are_kept_by_provider(p: AIProviderOption, q: AIProviderOption)
    ensures
        key_name(p) is None <==> p == AIProviderOption::Disabled || p == AIProviderOption::Local,
        key_name(p) is Some && key_name(p) == key_name(q) ==> p == q,
{
    reveal_strlit("openai");
    reveal_strlit("anthropic");
    reveal_strlit("gemini");
    reveal_strlit("grok");
    assert("openai"@[0] == 'o' && "anthropic"@[0] == 'a' && "gemini"@[0] == 'g' && "grok"@[0]
        == 'g');
    assert("gemini"@[1] == 'e' && "grok"@[1] == 'r');
}

/// A text that is pasted loses its control characters and nothing else; new lines stay where lines are
/// wanted.
pub proof fn pasted_texts_lose_control_characters(s: Seq<char>, keep_lines: bool, c: char)
    ensures
        without_controls(Seq::empty(), keep_lines).len() == 0,
        is_control(c) && !(keep_lines && c == '\n') ==> without_controls(s.push(c), keep_lines)
            == without_controls(s, keep_lines),
        !is_control(c) || (keep_lines && c == '\n') ==> without_controls(s.push(c), keep_lines)
            == without_controls(s, keep_lines).push(c),
        is_control('\n') && is_control('\t') && is_control('\r') && !is_control(' '),
        (c as u32) < 128 ==> (is_control(c) <==> (c as u32) < 32 || c as u32 == 127),
{
    assert(s.push(c).drop_last() =~= s);
}

/// A key is kept for the chosen provider, without the white space around it. Once it is kept it is the key
/// of the session, the field is empty, and a removed key is nowhere any more.
pub proof fn a_kept_key_is_the_one_entered(
    a: Spreadsheet,
    b: Spreadsheet,
    c: Spreadsheet,
    d: Spreadsheet,
    r: Option<ProviderKey>,
    stored: Result<(), String>,
    label: Seq<char>,
)
    requires
        key_entered(a, b, r),
        r matches Some(k) ==> key_stored(b, c, k.key@, stored, label),
        key_removed(c, d, Ok(()), label),
    ensures
        r is Some <==> key_name(a.ai.settings.provider) is Some && !(forall|i: int|
            0 <= i < a.ai.settings.key_input@.len() ==> text::is_white(
                #[trigger] a.ai.settings.key_input@[i],
            )),
        r matches Some(k) ==> Some(k.provider@) == key_name(a.ai.settings.provider) && k.key@
            == text::trimmed(a.ai.settings.key_input@),
        r is None ==> b.ai.settings.error is Some && b.ai.session_key == a.ai.session_key,
        r is Some && stored is Ok ==> text::opt_text(c.ai.session_key) == Some(
            text::trimmed(a.ai.settings.key_input@),
        ) && c.ai.key_validated && c.ai.settings.key_present && c.ai.settings.key_input@.len() == 0
            && c.ai.settings.error is None && c.ai.settings.provider == a.ai.settings.provider,
        r is Some && stored is Err ==> c.ai.session_key == a.ai.session_key && c.ai.key_validated
            == a.ai.key_validated && c.ai.settings.error is Some,
        d.ai.session_key is None && !d.ai.key_validated && !d.ai.settings.key_present,
{
    text::trimming_takes_off_white_space(a.ai.settings.key_input@);
}

/// A character that is typed goes to the field that has the focus, the others stay, and taken back it leaves
/// the fields as they were.
pub proof fn typing_goes_to_the_focused_field(a: AiSettings, b: AiSettings, c: AiSettings, x: char)
    requires
        setting_edited(a, b, true, |s: Seq<char>| s.push(x)),
        setting_edited(b, c, false, |s: Seq<char>| text::shortened(s)),
    ensures
        c.model@ == a.model@ && c.endpoint@ == a.endpoint@ && c.key_input@ == a.key_input@,
        b.model@ == if a.focus == AISettingsFocus::Model {
            a.model@.push(x)
        } else {
            a.model@
        },
        b.endpoint@ == if a.focus == AISettingsFocus::Endpoint {
            a.endpoint@.push(x)
        } else {
            a.endpoint@
        },
        b.key_input@ == if a.focus == AISettingsFocus::KeyInput {
            a.key_input@.push(x)
        } else {
            a.key_input@
        },
        a.focus != AISettingsFocus::Provider ==> b.error is None,
        a.focus == AISettingsFocus::Provider ==> b == a,
        b.provider == a.provider && b.focus == a.focus && b.key_present == a.key_present,
{
    text::a_typed_character_can_be_taken_back(a.model@, x);
    text::a_typed_character_can_be_taken_back(a.endpoint@, x);
    text::a_typed_character_can_be_taken_back(a.key_input@, x);
}

/// A provider that takes a key has a field for it, a local one has a field for its address, and each has one
/// for its model.
pub proof fn the_fields_of_a_provider(p: AIProviderOption)
    ensures
        settings_fields(p).len() > 0 && settings_fields(p)[0] == AISettingsFocus::Provider,
        settings_fields(p).no_duplicates(),
        settings_fields(p).contains(AISettingsFocus::KeyInput) <==> key_name(p) is Some,
        settings_fields(p).contains(AISettingsFocus::Endpoint) <==> p == AIProviderOption::Local,
        settings_fields(p).contains(AISettingsFocus::Model) <==> p != AIProviderOption::Disabled,
{
    let f = settings_fields(p);
    if p == AIProviderOption::Local {
        assert(f[1] == AISettingsFocus::Model && f[2] == AISettingsFocus::Endpoint);
    } else if p != AIProviderOption::Disabled {
        assert(f[1] == AISettingsFocus::Model && f[2] == AISettingsFocus::KeyInput);
    }
}

/// Settings that were tried say what came of it. A complaint about the key is passed over where there is one.
pub proof fn a_trial_says_what_came_of_it(old: Spreadsheet, new: Spreadsheet, verdict: ConfigVerdict)
    requires
        config_validated(old, new, verdict),
    ensures
        verdict matches ConfigVerdict::Valid(m) ==> new.ai.settings.test_status
            == AITestStatus::Success(m),
        verdict matches ConfigVerdict::Invalid(m) ==> (new.ai.settings.test_status is Success
            <==> old.ai.settings.key_present && text::contains_text(m@, "API key"@)) && (
        !old.ai.settings.key_present ==> new.ai.settings.test_status == AITestStatus::Error(m)),
        new.ai.session_key == old.ai.session_key && new.ai.settings.provider
            == old.ai.settings.provider && new.mode == old.mode,
{
}

} // verus!
