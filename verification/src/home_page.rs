//! The editor page as a state machine: what the page holds, what can happen to it, and what it
//! holds and asks for afterwards. Decoding what the browser sends and carrying out what the
//! page asks for is left to whoever runs the page.

use crate::config::{
    class_style_named, id_style_named, ClassStyle, Config, IdStyle, Render,
};
use crate::html_to_maud::{converted, html_to_maud};
use crate::parse::{error_text, failure};
use crate::text::str_eq;
use vstd::prelude::*;

verus! {

/// The key bindings of the editor.
#[derive(Clone, Copy, Debug, PartialEq, Eq, Structural)]
pub enum KeyboardBindings {
    Default,
    Vim,
    Emacs,
}

/// The name under which the Ace editor knows a set of key bindings; empty for its own.
pub open spec fn handler_name(bindings: KeyboardBindings) -> Seq<char> {
    match bindings {
        KeyboardBindings::Default => ""@,
        KeyboardBindings::Vim => "ace/keyboard/vim"@,
        KeyboardBindings::Emacs => "ace/keyboard/emacs"@,
    }
}

/// The key bindings of a name: `default`, `vim` or `emacs`.
pub open spec fn bindings_named(name: Seq<char>) -> Option<KeyboardBindings> {
    if name == "default"@ {
        Some(KeyboardBindings::Default)
    } else if name == "vim"@ {
        Some(KeyboardBindings::Vim)
    } else if name == "emacs"@ {
        Some(KeyboardBindings::Emacs)
    } else {
        None
    }
}

impl KeyboardBindings {
    /// The name under which the Ace editor knows the key bindings.
    pub fn ace_keyboard_handler(&self) -> (name: String)
        ensures
            name@ == handler_name(*self),
    {
        match self {
            KeyboardBindings::Default => String::from_str(""),
            KeyboardBindings::Vim => String::from_str("ace/keyboard/vim"),
            KeyboardBindings::Emacs => String::from_str("ace/keyboard/emacs"),
        }
    }

    /// The key bindings that `name` names, if it names any.
    pub fn from_name(name: &str) -> (bindings: Option<KeyboardBindings>)
        ensures
            bindings == bindings_named(name@),
    {
        if str_eq(name, "default") {
            Some(KeyboardBindings::Default)
        } else if str_eq(name, "vim") {
            Some(KeyboardBindings::Vim)
        } else if str_eq(name, "emacs") {
            Some(KeyboardBindings::Emacs)
        } else {
            None
        }
    }
}

/// What the page asks the editor itself to do.
#[derive(Clone, Debug)]
pub enum AppEffect {
    /// Use the key bindings of this name.
    SetKeyboardHandler(String),
}

/// The settings as they are kept between visits.
#[derive(Clone, Copy, Debug, PartialEq, Eq, Structural)]
pub struct LocalStorageSettings {
    pub maud_config: Config,
    pub keyboard_bindings: KeyboardBindings,
}

/// The size of the browser window.
#[derive(Clone, Copy, Debug, PartialEq, Eq, Structural)]
pub struct WindowSize {
    pub width: u32,
    pub height: u32,
}

/// The height of the editors in a window of the height `window_height`: what is left below the
/// 96 pixels of the page's head, and 500 pixels at least.
pub open spec fn editor_height_of(window_height: int) -> int {
    if window_height - 96 >= 500 {
        window_height - 96
    } else {
        500
    }
}

/// The height of the editors in a window of this size.
pub fn editor_height(window_size: &WindowSize) -> (height: i64)
    ensures
        height == editor_height_of(window_size.height as int),
{
    let below: i64 = window_size.height as i64 - 96;
    if below >= 500 {
        below
    } else {
        500
    }
}

/// The elements of the page that the logic speaks of.
#[derive(Clone, Copy, Debug, PartialEq, Eq, Structural)]
pub enum Id {
    HtmlInput,
    MaudOutput,
    Settings,
    SettingsBackdrop,
    SettingsClose,
    RenderOptions,
    IdStyleOptions,
    ClassStyleOptions,
    KeyboardBindings,
}

/// The id of an element in the page.
pub open spec fn dom_id_of(id: Id) -> Seq<char> {
    match id {
        Id::HtmlInput => "html-input"@,
        Id::MaudOutput => "maud-output"@,
        Id::Settings => "settings"@,
        Id::SettingsBackdrop => "settings-backdrop"@,
        Id::SettingsClose => "settings-close"@,
        Id::RenderOptions => "render-options"@,
        Id::IdStyleOptions => "id-style-options"@,
        Id::ClassStyleOptions => "class-style-options"@,
        Id::KeyboardBindings => "keyboard-bindings"@,
    }
}

impl Id {
    /// The id of the element in the page.
    pub fn dom_id(&self) -> (name: String)
        ensures
            name@ == dom_id_of(*self),
    {
        match self {
            Id::HtmlInput => String::from_str("html-input"),
            Id::MaudOutput => String::from_str("maud-output"),
            Id::Settings => String::from_str("settings"),
            Id::SettingsBackdrop => String::from_str("settings-backdrop"),
            Id::SettingsClose => String::from_str("settings-close"),
            Id::RenderOptions => String::from_str("render-options"),
            Id::IdStyleOptions => String::from_str("id-style-options"),
            Id::ClassStyleOptions => String::from_str("class-style-options"),
            Id::KeyboardBindings => String::from_str("keyboard-bindings"),
        }
    }
}

/// What the page holds.
#[derive(Clone, Debug)]
pub struct Model {
    pub window_size: Option<WindowSize>,
    pub html: String,
    pub maud: String,
    pub show_settings: bool,
    pub maud_config: Config,
    pub keyboard_bindings: KeyboardBindings,
}

/// A [`Model`] as plain values.
pub struct ModelView {
    pub window_size: Option<WindowSize>,
    pub html: Seq<char>,
    pub maud: Seq<char>,
    pub show_settings: bool,
    pub maud_config: Config,
    pub keyboard_bindings: KeyboardBindings,
}

impl View for Model {
    type V = ModelView;

    open spec fn view(&self) -> ModelView {
        ModelView {
            window_size: self.window_size,
            html: self.html@,
            maud: self.maud@,
            show_settings: self.show_settings,
            maud_config: self.maud_config,
            keyboard_bindings: self.keyboard_bindings,
        }
    }
}

/// What can happen to the page. What the browser sends is decoded before it gets here: a
/// render mode, key bindings, a window size and the settings arrive as values, or as the
/// diagnostic of the decoder where they could not be decoded; a style arrives as its name.
#[derive(Debug)]
pub enum Msg {
    HtmlChanged(String),
    WindowSizeChanged(Result<WindowSize, String>),
    ShowSettings,
    HideSettings,
    EscapePressed,
    RenderOptionChanged(Result<Render, String>),
    IdStyleChanged(String),
    ClassStyleChanged(String),
    KeyboardBindingsChanged(Result<KeyboardBindings, String>),
    GotSettings(Result<Option<LocalStorageSettings>, String>),
}

/// A [`Msg`] as plain values.
pub enum MsgView {
    HtmlChanged(Seq<char>),
    WindowSizeChanged(Result<WindowSize, Seq<char>>),
    ShowSettings,
    HideSettings,
    EscapePressed,
    RenderOptionChanged(Result<Render, Seq<char>>),
    IdStyleChanged(Seq<char>),
    ClassStyleChanged(Seq<char>),
    KeyboardBindingsChanged(Result<KeyboardBindings, Seq<char>>),
    GotSettings(Result<Option<LocalStorageSettings>, Seq<char>>),
}

impl View for Msg {
    type V = MsgView;

    open spec fn view(&self) -> MsgView {
        match self {
            Msg::HtmlChanged(html) => MsgView::HtmlChanged(html@),
            Msg::WindowSizeChanged(Ok(size)) => MsgView::WindowSizeChanged(Ok(*size)),
            Msg::WindowSizeChanged(Err(diagnostic)) => MsgView::WindowSizeChanged(
                Err(diagnostic@),
            ),
            Msg::ShowSettings => MsgView::ShowSettings,
            Msg::HideSettings => MsgView::HideSettings,
            Msg::EscapePressed => MsgView::EscapePressed,
            Msg::RenderOptionChanged(Ok(render)) => MsgView::RenderOptionChanged(Ok(*render)),
            Msg::RenderOptionChanged(Err(diagnostic)) => MsgView::RenderOptionChanged(
                Err(diagnostic@),
            ),
            Msg::IdStyleChanged(name) => MsgView::IdStyleChanged(name@),
            Msg::ClassStyleChanged(name) => MsgView::ClassStyleChanged(name@),
            Msg::KeyboardBindingsChanged(Ok(bindings)) => MsgView::KeyboardBindingsChanged(
                Ok(*bindings),
            ),
            Msg::KeyboardBindingsChanged(Err(diagnostic)) => MsgView::KeyboardBindingsChanged(
                Err(diagnostic@),
            ),
            Msg::GotSettings(Ok(settings)) => MsgView::GotSettings(Ok(*settings)),
            Msg::GotSettings(Err(diagnostic)) => MsgView::GotSettings(Err(diagnostic@)),
        }
    }
}

/// What the page asks for.
#[derive(Clone, Debug)]
pub enum Effect {
    /// Read the settings that are kept, and answer with `Msg::GotSettings`.
    LoadSettings,
    /// Keep these settings.
    SaveSettings(LocalStorageSettings),
    /// Something that the editor itself does.
    App(AppEffect),
}

/// An [`Effect`] as plain values.
pub enum EffectView {
    LoadSettings,
    SaveSettings(LocalStorageSettings),
    SetKeyboardHandler(Seq<char>),
}

impl View for Effect {
    type V = EffectView;

    open spec fn view(&self) -> EffectView {
        match self {
            Effect::LoadSettings => EffectView::LoadSettings,
            Effect::SaveSettings(settings) => EffectView::SaveSettings(*settings),
            Effect::App(AppEffect::SetKeyboardHandler(name)) => EffectView::SetKeyboardHandler(
                name@,
            ),
        }
    }
}

/// The views of a sequence of effects.
pub open spec fn effect_views(effects: Seq<Effect>) -> Seq<EffectView> {
    Seq::new(effects.len(), |i: int| effects[i]@)
}

/// A message that carries nothing.
#[derive(Clone, Copy, Debug, PartialEq, Eq, Structural)]
pub enum Signal {
    ShowSettings,
    HideSettings,
    EscapePressed,
}

/// A setting that is chosen from a list; the message that reports the choice carries its name.
#[derive(Clone, Copy, Debug, PartialEq, Eq, Structural)]
pub enum Choice {
    RenderOption,
    IdStyle,
    ClassStyle,
    KeyboardBindings,
}

/// One thing that the page listens to, and the message that it answers with.
#[derive(Clone, Copy, Debug, PartialEq, Eq, Structural)]
pub enum Subscription {
    /// The window changes its size: `Msg::WindowSizeChanged`.
    WindowResize,
    /// A click on the element.
    Click(Id, Signal),
    /// A click on the element or on something inside it.
    ClickClosest(Id, Signal),
    /// The value of the element changes.
    Change(Id, Choice),
    /// The escape key is released anywhere in the document.
    KeyupEscape(Signal),
}

/// What the page listens to while the settings are shown, and while they are not.
pub open spec fn subscribed(show_settings: bool) -> Seq<Subscription> {
    if show_settings {
        seq![
            Subscription::Click(Id::SettingsBackdrop, Signal::HideSettings),
            Subscription::Click(Id::SettingsClose, Signal::HideSettings),
            Subscription::Change(Id::RenderOptions, Choice::RenderOption),
            Subscription::Change(Id::IdStyleOptions, Choice::IdStyle),
            Subscription::Change(Id::ClassStyleOptions, Choice::ClassStyle),
            Subscription::Change(Id::KeyboardBindings, Choice::KeyboardBindings),
            Subscription::KeyupEscape(Signal::EscapePressed),
            Subscription::WindowResize,
        ]
    } else {
        seq![
            Subscription::ClickClosest(Id::Settings, Signal::ShowSettings),
            Subscription::WindowResize,
        ]
    }
}

/// How a step of the page ends.
pub enum Outcome {
    /// With these effects.
    Effects(Seq<EffectView>),
    /// With this complaint: about something that could not be decoded, or about markup that
    /// could not be converted.
    Rejected(Seq<char>),
}

/// The settings that a model holds.
pub open spec fn settings_of(model: ModelView) -> LocalStorageSettings {
    LocalStorageSettings {
        maud_config: model.maud_config,
        keyboard_bindings: model.keyboard_bindings,
    }
}

/// The effect that sets the key bindings that a model holds.
pub open spec fn handler_effect(model: ModelView) -> EffectView {
    EffectView::SetKeyboardHandler(handler_name(model.keyboard_bindings))
}

/// The model with this markup and these settings, its output made anew, and what the step that
/// leads there ends with; the model as it was where the markup cannot be converted.
pub open spec fn reconverted(
    model: ModelView,
    html: Seq<char>,
    config: Config,
    bindings: KeyboardBindings,
    effects: spec_fn(ModelView) -> Seq<EffectView>,
) -> (ModelView, Outcome) {
    match converted(html, config) {
        Some(maud) => {
            let next = ModelView {
                html,
                maud,
                maud_config: config,
                keyboard_bindings: bindings,
                ..model
            };
            (next, Outcome::Effects(effects(next)))
        },
        None => (model, Outcome::Rejected(error_text(failure(html)->0))),
    }
}

/// What the page holds after a message, and how the step ends.
pub open spec fn step(model: ModelView, msg: MsgView) -> (ModelView, Outcome) {
    match msg {
        MsgView::GotSettings(Err(diagnostic)) => (
            model,
            Outcome::Rejected("Failed to parse settings: "@ + diagnostic),
        ),
        MsgView::GotSettings(Ok(None)) => (model, Outcome::Effects(Seq::empty())),
        MsgView::GotSettings(Ok(Some(settings))) => reconverted(
            model,
            model.html,
            settings.maud_config,
            settings.keyboard_bindings,
            |next: ModelView| seq![handler_effect(next)],
        ),
        MsgView::WindowSizeChanged(Err(diagnostic)) => (
            model,
            Outcome::Rejected("Failed to parse window size: "@ + diagnostic),
        ),
        MsgView::WindowSizeChanged(Ok(size)) => (
            ModelView { window_size: Some(size), ..model },
            Outcome::Effects(Seq::empty()),
        ),
        MsgView::HtmlChanged(html) => reconverted(
            model,
            html,
            model.maud_config,
            model.keyboard_bindings,
            |next: ModelView| Seq::empty(),
        ),
        MsgView::ShowSettings => (
            ModelView { show_settings: true, ..model },
            Outcome::Effects(Seq::empty()),
        ),
        MsgView::HideSettings => (
            ModelView { show_settings: false, ..model },
            Outcome::Effects(Seq::empty()),
        ),
        MsgView::EscapePressed => (
            ModelView { show_settings: false, ..model },
            Outcome::Effects(Seq::empty()),
        ),
        MsgView::RenderOptionChanged(decoded) => match decoded {
            Err(diagnostic) => (
                model,
                Outcome::Rejected("Failed to parse render option: "@ + diagnostic),
            ),
            Ok(render) => reconverted(
                model,
                model.html,
                Config { render, ..model.maud_config },
                model.keyboard_bindings,
                |next: ModelView| seq![EffectView::SaveSettings(settings_of(next))],
            ),
        },
        MsgView::IdStyleChanged(name) => reconverted(
            model,
            model.html,
            Config {
                id_style: match id_style_named(name) {
                    Some(style) => style,
                    None => IdStyle::Full,
                },
                ..model.maud_config
            },
            model.keyboard_bindings,
            |next: ModelView| seq![EffectView::SaveSettings(settings_of(next))],
        ),
        MsgView::ClassStyleChanged(name) => reconverted(
            model,
            model.html,
            Config {
                class_style: match class_style_named(name) {
                    Some(style) => style,
                    None => ClassStyle::Full,
                },
                ..model.maud_config
            },
            model.keyboard_bindings,
            |next: ModelView| seq![EffectView::SaveSettings(settings_of(next))],
        ),
        MsgView::KeyboardBindingsChanged(decoded) => match decoded {
            Err(diagnostic) => (
                model,
                Outcome::Rejected("Failed to parse keyboard bindings: "@ + diagnostic),
            ),
            Ok(bindings) => {
                let next = ModelView { keyboard_bindings: bindings, ..model };
                (
                    next,
                    Outcome::Effects(
                        seq![handler_effect(next), EffectView::SaveSettings(settings_of(next))],
                    ),
                )
            },
        },
    }
}

/// Whether what a step handed back is what it ends with.
pub open spec fn reports(result: Result<Vec<Effect>, String>, outcome: Outcome) -> bool {
    match outcome {
        Outcome::Effects(effects) => result is Ok && effect_views(result->Ok_0@) == effects,
        Outcome::Rejected(complaint) => result is Err && result->Err_0@ == complaint,
    }
}

/// The markup that the page starts with.
pub open spec fn initial_html() -> Seq<char> {
    "<div id=\"title\" class=\"text-xl font-bold\">Hello world</div>"@
}

/// The settings that the page starts with.
pub open spec fn initial_config() -> Config {
    Config { render: Render::Auto, id_style: IdStyle::Full, class_style: ClassStyle::Full }
}

/// No effects.
fn no_effects() -> (effects: Vec<Effect>)
    ensures
        effect_views(effects@) == Seq::<EffectView>::empty(),
{
    let effects: Vec<Effect> = Vec::new();
    proof {
        assert(effect_views(effects@) =~= Seq::<EffectView>::empty());
    }
    effects
}

/// The effect that keeps the settings of `model`.
fn save_settings_effect(model: &Model) -> (effect: Effect)
    ensures
        effect@ == EffectView::SaveSettings(settings_of(model@)),
{
    Effect::SaveSettings(
        LocalStorageSettings {
            keyboard_bindings: model.keyboard_bindings,
            maud_config: model.maud_config,
        },
    )
}

/// The effect that sets the key bindings of `model`.
fn set_keyboard_handler_effect(model: &Model) -> (effect: Effect)
    ensures
        effect@ == handler_effect(model@),
{
    Effect::App(AppEffect::SetKeyboardHandler(model.keyboard_bindings.ace_keyboard_handler()))
}

/// The effect that reads the settings that are kept.
fn load_settings_effect() -> (effect: Effect)
    ensures
        effect@ == EffectView::LoadSettings,
{
    Effect::LoadSettings
}

/// A complaint: what failed, and the diagnostic.
fn complaint(what: &str, diagnostic: &str) -> (text: String)
    ensures
        text@ == what@ + diagnostic@,
{
    let mut text = String::from_str(what);
    text.append(diagnostic);
    text
}

/// The page.
#[derive(Clone, Copy, Debug)]
pub struct HomePage {
    pub window_size: Option<WindowSize>,
}

impl HomePage {
    /// The id of the page.
    pub fn id(&self) -> (id: String)
        ensures
            id@ == "html-to-maud"@,
    {
        String::from_str("html-to-maud")
    }

    /// What the page holds and asks for at its start: the example markup with its conversion,
    /// and the request to read the settings that are kept.
    pub fn init(&self) -> (start: Result<(Model, Vec<Effect>), String>)
        ensures
            match converted(initial_html(), initial_config()) {
                Some(maud) => start is Ok && start->Ok_0.0@ == (ModelView {
                    window_size: self.window_size,
                    html: initial_html(),
                    maud,
                    show_settings: false,
                    maud_config: initial_config(),
                    keyboard_bindings: KeyboardBindings::Default,
                }) && effect_views(start->Ok_0.1@) == seq![EffectView::LoadSettings],
                None => start is Err && start->Err_0@ == error_text(
                    failure(initial_html())->0,
                ),
            },
    {
        let html = "<div id=\"title\" class=\"text-xl font-bold\">Hello world</div>";
        let maud_config = Config {
            render: Render::Auto,
            id_style: IdStyle::Full,
            class_style: ClassStyle::Full,
        };
        match html_to_maud(html, &maud_config) {
            Err(error) => Err(error.message()),
            Ok(maud) => {
                let model = Model {
                    window_size: self.window_size,
                    html: String::from_str(html),
                    maud,
                    show_settings: false,
                    maud_config,
                    keyboard_bindings: KeyboardBindings::Default,
                };
                let mut effects: Vec<Effect> = Vec::new();
                effects.push(load_settings_effect());
                proof {
                    assert(effect_views(effects@) =~= seq![EffectView::LoadSettings]);
                }
                Ok((model, effects))
            },
        }
    }

    /// What the page listens to.
    pub fn subscriptions(&self, model: &Model) -> (subscriptions: Vec<Subscription>)
        ensures
            subscriptions@ == subscribed(model.show_settings),
    {
        let window_size_sub = Subscription::WindowResize;
        let mut subscriptions: Vec<Subscription> = Vec::new();
        if model.show_settings {
            subscriptions.push(Subscription::Click(Id::SettingsBackdrop, Signal::HideSettings));
            subscriptions.push(Subscription::Click(Id::SettingsClose, Signal::HideSettings));
            subscriptions.push(Subscription::Change(Id::RenderOptions, Choice::RenderOption));
            subscriptions.push(Subscription::Change(Id::IdStyleOptions, Choice::IdStyle));
            subscriptions.push(Subscription::Change(Id::ClassStyleOptions, Choice::ClassStyle));
            subscriptions.push(
                Subscription::Change(Id::KeyboardBindings, Choice::KeyboardBindings),
            );
            subscriptions.push(Subscription::KeyupEscape(Signal::EscapePressed));
            subscriptions.push(window_size_sub);
        } else {
            subscriptions.push(Subscription::ClickClosest(Id::Settings, Signal::ShowSettings));
            subscriptions.push(window_size_sub);
        }
        proof {
            assert(subscriptions@ =~= subscribed(model.show_settings));
        }
        subscriptions
    }

    /// Takes a message: changes what the page holds, and hands back what the page asks for, or
    /// a complaint. Where it hands back a complaint the page holds what it held.
    pub fn update(&self, msg: &Msg, model: &mut Model) -> (result: Result<Vec<Effect>, String>)
        ensures
            final(model)@ == step(old(model)@, msg@).0,
            reports(result, step(old(model)@, msg@).1),
    {
        match msg {
            Msg::GotSettings(Err(diagnostic)) => Err(
                complaint("Failed to parse settings: ", diagnostic.as_str()),
            ),
            Msg::GotSettings(Ok(None)) => Ok(no_effects()),
            Msg::GotSettings(Ok(Some(settings))) => {
                match html_to_maud(model.html.as_str(), &settings.maud_config) {
                    Err(error) => Err(error.message()),
                    Ok(maud) => {
                        model.keyboard_bindings = settings.keyboard_bindings;
                        model.maud_config = settings.maud_config;
                        model.maud = maud;
                        let mut effects: Vec<Effect> = Vec::new();
                        effects.push(set_keyboard_handler_effect(model));
                        proof {
                            assert(effect_views(effects@) =~= seq![handler_effect(model@)]);
                        }
                        Ok(effects)
                    },
                }
            },
            Msg::WindowSizeChanged(Err(diagnostic)) => Err(
                complaint("Failed to parse window size: ", diagnostic.as_str()),
            ),
            Msg::WindowSizeChanged(Ok(window_size)) => {
                model.window_size = Some(*window_size);
                Ok(no_effects())
            },
            Msg::HtmlChanged(html) => {
                match html_to_maud(html.as_str(), &model.maud_config) {
                    Err(error) => Err(error.message()),
                    Ok(maud) => {
                        model.html = html.clone();
                        model.maud = maud;
                        Ok(no_effects())
                    },
                }
            },
            Msg::ShowSettings => {
                model.show_settings = true;
                Ok(no_effects())
            },
            Msg::HideSettings => {
                model.show_settings = false;
                Ok(no_effects())
            },
            Msg::EscapePressed => {
                model.show_settings = false;
                Ok(no_effects())
            },
            Msg::RenderOptionChanged(decoded) => {
                match decoded {
                    Err(diagnostic) => Err(
                        complaint("Failed to parse render option: ", diagnostic.as_str()),
                    ),
                    Ok(render) => {
                        let config = Config {
                            render: *render,
                            id_style: model.maud_config.id_style,
                            class_style: model.maud_config.class_style,
                        };
                        self.reconfigure(model, config)
                    },
                }
            },
            Msg::IdStyleChanged(name) => {
                let config = Config {
                    render: model.maud_config.render,
                    id_style: IdStyle::from_name_or_default(name.as_str()),
                    class_style: model.maud_config.class_style,
                };
                self.reconfigure(model, config)
            },
            Msg::ClassStyleChanged(name) => {
                let config = Config {
                    render: model.maud_config.render,
                    id_style: model.maud_config.id_style,
                    class_style: ClassStyle::from_name_or_default(name.as_str()),
                };
                self.reconfigure(model, config)
            },
            Msg::KeyboardBindingsChanged(decoded) => {
                match decoded {
                    Err(diagnostic) => Err(
                        complaint("Failed to parse keyboard bindings: ", diagnostic.as_str()),
                    ),
                    Ok(keyboard_bindings) => {
                        model.keyboard_bindings = *keyboard_bindings;
                        let mut effects: Vec<Effect> = Vec::new();
                        effects.push(set_keyboard_handler_effect(model));
                        effects.push(save_settings_effect(model));
                        proof {
                            assert(effect_views(effects@) =~= seq![
                                handler_effect(model@),
                                EffectView::SaveSettings(settings_of(model@)),
                            ]);
                        }
                        Ok(effects)
                    },
                }
            },
        }
    }

    /// Gives the page another configuration: makes the output anew, and asks for the settings
    /// to be kept.
    fn reconfigure(&self, model: &mut Model, config: Config) -> (result: Result<
        Vec<Effect>,
        String,
    >)
        ensures
            final(model)@ == reconverted(
                old(model)@,
                old(model)@.html,
                config,
                old(model)@.keyboard_bindings,
                |next: ModelView| seq![EffectView::SaveSettings(settings_of(next))],
            ).0,
            reports(
                result,
                reconverted(
                    old(model)@,
                    old(model)@.html,
                    config,
                    old(model)@.keyboard_bindings,
                    |next: ModelView| seq![EffectView::SaveSettings(settings_of(next))],
                ).1,
            ),
    {
        match html_to_maud(model.html.as_str(), &config) {
            Err(error) => Err(error.message()),
            Ok(maud) => {
                model.maud_config = config;
                model.maud = maud;
                let mut effects: Vec<Effect> = Vec::new();
                effects.push(save_settings_effect(model));
                proof {
                    assert(effect_views(effects@) =~= seq![
                        EffectView::SaveSettings(settings_of(model@)),
                    ]);
                }
                Ok(effects)
            },
        }
    }
}

} // verus!
