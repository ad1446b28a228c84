use htom_core::config::{ClassStyle, Config, IdStyle, Render};
use htom_core::home_page::{
    editor_height, AppEffect, Choice, Effect, HomePage, Id, KeyboardBindings,
    LocalStorageSettings, Model, Msg, Signal, Subscription, WindowSize,
};
use htom_core::html_to_maud::html_to_maud;

fn page() -> HomePage {
    HomePage { window_size: Some(WindowSize { width: 800, height: 600 }) }
}

fn start() -> Model {
    page().init().unwrap().0
}

fn saved(effect: &Effect) -> LocalStorageSettings {
    match effect {
        Effect::SaveSettings(settings) => *settings,
        other => panic!("no save: {:?}", other),
    }
}

fn handler(effect: &Effect) -> String {
    match effect {
        Effect::App(AppEffect::SetKeyboardHandler(name)) => name.clone(),
        other => panic!("no handler: {:?}", other),
    }
}

#[test]
fn names_of_settings() {
    assert_eq!(Render::from_name("auto"), Some(Render::Auto));
    assert_eq!(Render::from_name("full"), Some(Render::Full));
    assert_eq!(Render::from_name("onlyBody"), Some(Render::OnlyBody));
    assert_eq!(Render::from_name("OnlyBody"), None);
    assert_eq!(Render::from_name(""), None);
    assert_eq!(IdStyle::from_name("full"), Some(IdStyle::Full));
    assert_eq!(IdStyle::from_name("short"), Some(IdStyle::Short));
    assert_eq!(IdStyle::from_name("shortNoDiv"), Some(IdStyle::ShortNoDiv));
    assert_eq!(IdStyle::from_name("short_no_div"), None);
    assert_eq!(ClassStyle::from_name("full"), Some(ClassStyle::Full));
    assert_eq!(ClassStyle::from_name("short"), Some(ClassStyle::Short));
    assert_eq!(ClassStyle::from_name("shortNoDiv"), Some(ClassStyle::ShortNoDiv));
    assert_eq!(ClassStyle::from_name("\"short\""), None);
    assert_eq!(KeyboardBindings::from_name("default"), Some(KeyboardBindings::Default));
    assert_eq!(KeyboardBindings::from_name("vim"), Some(KeyboardBindings::Vim));
    assert_eq!(KeyboardBindings::from_name("emacs"), Some(KeyboardBindings::Emacs));
    assert_eq!(KeyboardBindings::from_name("nano"), None);
}

#[test]
fn unknown_style_names_fall_back_to_full() {
    assert_eq!(IdStyle::from_name_or_default("shortNoDiv"), IdStyle::ShortNoDiv);
    assert_eq!(IdStyle::from_name_or_default("garbled"), IdStyle::Full);
    assert_eq!(IdStyle::from_name_or_default(""), IdStyle::Full);
    assert_eq!(ClassStyle::from_name_or_default("short"), ClassStyle::Short);
    assert_eq!(ClassStyle::from_name_or_default("SHORT"), ClassStyle::Full);
}

#[test]
fn keyboard_handlers() {
    assert_eq!(KeyboardBindings::Default.ace_keyboard_handler(), "");
    assert_eq!(KeyboardBindings::Vim.ace_keyboard_handler(), "ace/keyboard/vim");
    assert_eq!(KeyboardBindings::Emacs.ace_keyboard_handler(), "ace/keyboard/emacs");
}

#[test]
fn editor_height_is_what_is_left_and_500_at_least() {
    let height = |height| editor_height(&WindowSize { width: 0, height });
    assert_eq!(height(0), 500);
    assert_eq!(height(595), 500);
    assert_eq!(height(596), 500);
    assert_eq!(height(597), 501);
    assert_eq!(height(1096), 1000);
    assert_eq!(height(u32::MAX), 4294967199);
}

#[test]
fn dom_ids_are_in_kebab_case() {
    assert_eq!(page().id(), "html-to-maud");
    assert_eq!(Id::HtmlInput.dom_id(), "html-input");
    assert_eq!(Id::MaudOutput.dom_id(), "maud-output");
    assert_eq!(Id::Settings.dom_id(), "settings");
    assert_eq!(Id::SettingsBackdrop.dom_id(), "settings-backdrop");
    assert_eq!(Id::SettingsClose.dom_id(), "settings-close");
    assert_eq!(Id::RenderOptions.dom_id(), "render-options");
    assert_eq!(Id::IdStyleOptions.dom_id(), "id-style-options");
    assert_eq!(Id::ClassStyleOptions.dom_id(), "class-style-options");
    assert_eq!(Id::KeyboardBindings.dom_id(), "keyboard-bindings");
}

#[test]
fn init_converts_the_example_and_loads_the_settings() {
    let (model, effects) = page().init().unwrap();
    assert_eq!(model.window_size, Some(WindowSize { width: 800, height: 600 }));
    assert_eq!(model.html, "<div id=\"title\" class=\"text-xl font-bold\">Hello world</div>");
    assert_eq!(
        model.maud,
        "html! {\n    div id=\"title\" class=\"text-xl font-bold\" {\n        \"Hello world\"\n    }\n}"
    );
    assert!(!model.show_settings);
    assert_eq!(
        model.maud_config,
        Config { render: Render::Auto, id_style: IdStyle::Full, class_style: ClassStyle::Full }
    );
    assert_eq!(model.keyboard_bindings, KeyboardBindings::Default);
    assert!(matches!(effects.as_slice(), [Effect::LoadSettings]));
    assert_eq!(HomePage { window_size: None }.init().unwrap().0.window_size, None);
}

#[test]
fn subscriptions_depend_on_the_settings_being_shown() {
    let mut model = start();
    assert_eq!(
        page().subscriptions(&model),
        vec![
            Subscription::ClickClosest(Id::Settings, Signal::ShowSettings),
            Subscription::WindowResize,
        ]
    );
    model.show_settings = true;
    assert_eq!(
        page().subscriptions(&model),
        vec![
            Subscription::Click(Id::SettingsBackdrop, Signal::HideSettings),
            Subscription::Click(Id::SettingsClose, Signal::HideSettings),
            Subscription::Change(Id::RenderOptions, Choice::RenderOption),
            Subscription::Change(Id::IdStyleOptions, Choice::IdStyle),
            Subscription::Change(Id::ClassStyleOptions, Choice::ClassStyle),
            Subscription::Change(Id::KeyboardBindings, Choice::KeyboardBindings),
            Subscription::KeyupEscape(Signal::EscapePressed),
            Subscription::WindowResize,
        ]
    );
}

#[test]
fn settings_are_shown_and_hidden() {
    let mut model = start();
    assert!(page().update(&Msg::ShowSettings, &mut model).unwrap().is_empty());
    assert!(model.show_settings);
    assert!(page().update(&Msg::HideSettings, &mut model).unwrap().is_empty());
    assert!(!model.show_settings);
    model.show_settings = true;
    assert!(page().update(&Msg::EscapePressed, &mut model).unwrap().is_empty());
    assert!(!model.show_settings);
}

#[test]
fn html_change_converts_anew() {
    let mut model = start();
    let effects = page().update(&Msg::HtmlChanged("<hr>".to_string()), &mut model).unwrap();
    assert!(effects.is_empty());
    assert_eq!(model.html, "<hr>");
    assert_eq!(model.maud, "html! {\n    hr;\n}");
}

#[test]
fn window_size_is_kept_or_complained_about() {
    let mut model = start();
    let size = WindowSize { width: 1, height: 2 };
    assert!(page().update(&Msg::WindowSizeChanged(Ok(size)), &mut model).unwrap().is_empty());
    assert_eq!(model.window_size, Some(size));
    let complaint = page()
        .update(&Msg::WindowSizeChanged(Err("missing field".to_string())), &mut model)
        .unwrap_err();
    assert_eq!(complaint, "Failed to parse window size: missing field");
    assert_eq!(model.window_size, Some(size));
}

#[test]
fn render_option_changes_or_is_complained_about() {
    let mut model = start();
    model.html = "<body><hr></body>".to_string();
    let effects = page().update(&Msg::RenderOptionChanged(Ok(Render::OnlyBody)), &mut model).unwrap();
    assert_eq!(model.maud_config.render, Render::OnlyBody);
    assert_eq!(model.maud, "html! {\n    hr;\n}");
    assert_eq!(effects.len(), 1);
    assert_eq!(
        saved(&effects[0]),
        LocalStorageSettings { maud_config: model.maud_config, keyboard_bindings: KeyboardBindings::Default }
    );
    let complaint = page()
        .update(&Msg::RenderOptionChanged(Err("unknown variant `half`".to_string())), &mut model)
        .unwrap_err();
    assert_eq!(complaint, "Failed to parse render option: unknown variant `half`");
    assert_eq!(model.maud_config.render, Render::OnlyBody);
}

#[test]
fn style_changes_fall_back_to_full() {
    let mut model = start();
    let effects = page().update(&Msg::IdStyleChanged("shortNoDiv".to_string()), &mut model).unwrap();
    assert_eq!(model.maud_config.id_style, IdStyle::ShortNoDiv);
    assert_eq!(model.maud, html_to_maud(&model.html, &model.maud_config).unwrap());
    assert_eq!(model.maud, "html! {\n    #title class=\"text-xl font-bold\" {\n        \"Hello world\"\n    }\n}");
    assert_eq!(saved(&effects[0]).maud_config, model.maud_config);

    let effects = page().update(&Msg::ClassStyleChanged("short".to_string()), &mut model).unwrap();
    assert_eq!(model.maud_config.class_style, ClassStyle::Short);
    assert_eq!(model.maud, "html! {\n    #title .text-xl.font-bold {\n        \"Hello world\"\n    }\n}");
    assert_eq!(saved(&effects[0]).maud_config, model.maud_config);

    page().update(&Msg::IdStyleChanged("?".to_string()), &mut model).unwrap();
    assert_eq!(model.maud_config.id_style, IdStyle::Full);
    page().update(&Msg::ClassStyleChanged("?".to_string()), &mut model).unwrap();
    assert_eq!(model.maud_config.class_style, ClassStyle::Full);
    assert_eq!(model.maud, start().maud);
}

#[test]
fn keyboard_bindings_change_or_are_complained_about() {
    let mut model = start();
    let before = model.maud.clone();
    let effects = page()
        .update(&Msg::KeyboardBindingsChanged(Ok(KeyboardBindings::Vim)), &mut model)
        .unwrap();
    assert_eq!(model.keyboard_bindings, KeyboardBindings::Vim);
    assert_eq!(model.maud, before);
    assert_eq!(effects.len(), 2);
    assert_eq!(handler(&effects[0]), "ace/keyboard/vim");
    assert_eq!(saved(&effects[1]).keyboard_bindings, KeyboardBindings::Vim);
    let complaint = page()
        .update(&Msg::KeyboardBindingsChanged(Err("expected a string".to_string())), &mut model)
        .unwrap_err();
    assert_eq!(complaint, "Failed to parse keyboard bindings: expected a string");
    assert_eq!(model.keyboard_bindings, KeyboardBindings::Vim);
}

#[test]
fn got_settings_takes_them_over() {
    let mut model = start();
    let settings = LocalStorageSettings {
        maud_config: Config { render: Render::Auto, id_style: IdStyle::Short, class_style: ClassStyle::Short },
        keyboard_bindings: KeyboardBindings::Emacs,
    };
    let effects = page().update(&Msg::GotSettings(Ok(Some(settings))), &mut model).unwrap();
    assert_eq!(model.maud_config, settings.maud_config);
    assert_eq!(model.keyboard_bindings, KeyboardBindings::Emacs);
    assert_eq!(model.maud, "html! {\n    div #title .text-xl.font-bold {\n        \"Hello world\"\n    }\n}");
    assert_eq!(effects.len(), 1);
    assert_eq!(handler(&effects[0]), "ace/keyboard/emacs");

    assert!(page().update(&Msg::GotSettings(Ok(None)), &mut model).unwrap().is_empty());
    assert_eq!(model.maud_config, settings.maud_config);
    let complaint = page().update(&Msg::GotSettings(Err("eof".to_string())), &mut model).unwrap_err();
    assert_eq!(complaint, "Failed to parse settings: eof");
    assert_eq!(model.keyboard_bindings, KeyboardBindings::Emacs);
}
