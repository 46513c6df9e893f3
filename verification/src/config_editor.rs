//! The configuration window with explicit saving: edits stay in a working
//! copy until the user saves them.
use vstd::prelude::*;
use crate::config::{Config, DisplayMode, LiveSettings};
use crate::config_panel;
use crate::text;

verus! {

/// The working copy and what is known of it.
#[derive(Debug)]
pub struct ConfigPanel {
    pub config: Config,
    /// Whether the working copy differs from what is on disk.
    pub dirty: bool,
    /// The text in the field for a new character.
    pub new_character_buffer: String,
    /// The message after a save or a reload.
    pub status: Option<String>,
    /// The settings that apply at once.
    pub live: LiveSettings,
}

/// The name of a key in the menu of keys.
pub open spec fn vk_choice(code: u16) -> Option<Seq<char>> {
    match code {
        0x70 => Some("F1"@),
        0x71 => Some("F2"@),
        0x72 => Some("F3"@),
        0x73 => Some("F4"@),
        0x74 => Some("F5"@),
        0x75 => Some("F6"@),
        0x76 => Some("F7"@),
        0x77 => Some("F8"@),
        0x78 => Some("F9"@),
        0x79 => Some("F10"@),
        0x7A => Some("F11"@),
        0x7B => Some("F12"@),
        0x09 => Some("Tab"@),
        0x20 => Some("Space"@),
        0xC0 => Some("` (backtick)"@),
        _ => None,
    }
}

/// What the menu of keys shows for a code.
pub fn vk_dropdown_label(code: u16) -> (r: String)
    ensures
        r@ == (match vk_choice(code) {
            Some(name) => name,
            None => "Custom"@,
        }),
{
    let name: &'static str = match code {
        0x70 => "F1",
        0x71 => "F2",
        0x72 => "F3",
        0x73 => "F4",
        0x74 => "F5",
        0x75 => "F6",
        0x76 => "F7",
        0x77 => "F8",
        0x78 => "F9",
        0x79 => "F10",
        0x7A => "F11",
        0x7B => "F12",
        0x09 => "Tab",
        0x20 => "Space",
        0xC0 => "` (backtick)",
        _ => "Custom",
    };
    name.to_owned()
}

/// What the menu of modifiers shows for a code.
pub fn modifier_dropdown_label(code: Option<u16>) -> (r: String)
    ensures
        r@ == (match code {
            None => "None"@,
            Some(0x10u16) => "Shift"@,
            Some(0x11u16) => "Ctrl"@,
            Some(0x12u16) => "Alt"@,
            _ => "Custom"@,
        }),
{
    let name: &'static str = match code {
        None => "None",
        Some(0x10u16) => "Shift",
        Some(0x11u16) => "Ctrl",
        Some(0x12u16) => "Alt",
        _ => "Custom",
    };
    name.to_owned()
}

impl ConfigPanel {
    pub fn new(config: Config, live: LiveSettings) -> (r: Self)
        ensures
            r.config == config,
            r.live == live,
            !r.dirty,
            r.new_character_buffer@.len() == 0,
            r.status is None,
    {
        ConfigPanel { config, dirty: false, new_character_buffer: String::new(), status: None, live }
    }

    /// The characters were edited.
    pub open spec fn with_characters(&self, names: Seq<Seq<char>>, after: ConfigPanel) -> bool {
        &&& text::views(after.config.characters@) == names
        &&& after == (ConfigPanel {
            config: Config { characters: after.config.characters, ..self.config },
            dirty: true,
            ..*self
        })
    }

    /// Chooses what is shown of the clients; it applies at once.
    pub fn set_display_mode(&mut self, mode: DisplayMode)
        ensures
            *final(self) == (if mode == old(self).config.display_mode {
                *old(self)
            } else {
                ConfigPanel {
                    config: Config { display_mode: mode, ..old(self).config },
                    dirty: true,
                    live: LiveSettings { display_mode: mode, ..old(self).live },
                    ..*old(self)
                }
            }),
    {
        if mode != self.config.display_mode {
            self.config.display_mode = mode;
            self.dirty = true;
            self.live.display_mode = mode;
        }
    }

    /// Switches cycling by keyboard on or off.
    pub fn set_keyboard_enabled(&mut self, enabled: bool)
        ensures
            *final(self) == (if enabled == old(self).config.enable_keyboard_buttons {
                *old(self)
            } else {
                ConfigPanel {
                    config: Config { enable_keyboard_buttons: enabled, ..old(self).config },
                    dirty: true,
                    ..*old(self)
                }
            }),
    {
        if enabled != self.config.enable_keyboard_buttons {
            self.config.enable_keyboard_buttons = enabled;
            self.dirty = true;
        }
    }

    /// Chooses the forward key from the menu of keys. Any choice counts as an
    /// edit.
    pub fn choose_forward_key(&mut self, code: u16)
        ensures
            *final(self) == (ConfigPanel {
                config: Config { forward_key: code, ..old(self).config },
                dirty: true,
                ..*old(self)
            }),
    {
        self.config.forward_key = code;
        self.dirty = true;
    }

    /// Chooses the backward key in the same way.
    pub fn choose_backward_key(&mut self, code: u16)
        ensures
            *final(self) == (ConfigPanel {
                config: Config { backward_key: code, ..old(self).config },
                dirty: true,
                ..*old(self)
            }),
    {
        self.config.backward_key = code;
        self.dirty = true;
    }

    /// Chooses the modifier from the menu of modifiers in the same way.
    pub fn choose_modifier_key(&mut self, code: Option<u16>)
        ensures
            *final(self) == (ConfigPanel {
                config: Config { modifier_key: code, ..old(self).config },
                dirty: true,
                ..*old(self)
            }),
    {
        self.config.modifier_key = code;
        self.dirty = true;
    }

    /// Switches cycling by mouse on or off.
    pub fn set_mouse_enabled(&mut self, enabled: bool)
        ensures
            *final(self) == (if enabled == old(self).config.enable_mouse_buttons {
                *old(self)
            } else {
                ConfigPanel {
                    config: Config { enable_mouse_buttons: enabled, ..old(self).config },
                    dirty: true,
                    ..*old(self)
                }
            }),
    {
        if enabled != self.config.enable_mouse_buttons {
            self.config.enable_mouse_buttons = enabled;
            self.dirty = true;
        }
    }

    /// Chooses the mouse buttons of the two directions.
    pub fn set_mouse_buttons(&mut self, forward: u16, backward: u16)
        ensures
            *final(self) == (if forward == old(self).config.forward_button && backward
                == old(self).config.backward_button {
                *old(self)
            } else {
                ConfigPanel {
                    config: Config {
                        forward_button: forward,
                        backward_button: backward,
                        ..old(self).config
                    },
                    dirty: true,
                    ..*old(self)
                }
            }),
    {
        if forward != self.config.forward_button || backward != self.config.backward_button {
            self.config.forward_button = forward;
            self.config.backward_button = backward;
            self.dirty = true;
        }
    }

    /// Chooses whether previews are shown; it applies once it is saved.
    pub fn set_show_previews(&mut self, show: bool)
        ensures
            *final(self) == (if show == old(self).config.show_previews {
                *old(self)
            } else {
                ConfigPanel {
                    config: Config { show_previews: show, ..old(self).config },
                    dirty: true,
                    ..*old(self)
                }
            }),
    {
        if show != self.config.show_previews {
            self.config.show_previews = show;
            self.dirty = true;
        }
    }

    /// Exchanges two characters, where the second one is there.
    pub fn swap_characters(&mut self, a: usize, b: usize)
        requires
            a < old(self).config.characters@.len(),
        ensures
            b < old(self).config.characters@.len() ==> old(self).with_characters(
                config_panel::swapped(
                    text::views(old(self).config.characters@),
                    a as int,
                    b as int,
                ),
                *final(self),
            ),
            b >= old(self).config.characters@.len() ==> *final(self) == *old(self),
    {
        if b < self.config.characters.len() {
            config_panel::swap_names(&mut self.config.characters, a, b);
            self.dirty = true;
        }
    }

    /// Renames a character. Its hotkey goes along.
    pub fn rename_character(&mut self, i: usize, name: String)
        requires
            i < old(self).config.characters@.len(),
        ensures
            old(self).config.renamed(i as int, name@, final(self).config),
            *final(self) == (ConfigPanel {
                config: final(self).config,
                dirty: true,
                ..*old(self)
            }),
    {
        self.config.rename_character(i, name);
        self.dirty = true;
    }

    /// Removes a character.
    pub fn remove_character(&mut self, i: usize)
        requires
            i < old(self).config.characters@.len(),
        ensures
            old(self).with_characters(
                text::views(old(self).config.characters@).remove(i as int),
                *final(self),
            ),
    {
        let ghost wanted = text::views(self.config.characters@).remove(i as int);
        self.config.characters.remove(i);
        assert(text::views(self.config.characters@) =~= wanted);
        self.dirty = true;
    }

    /// Adds the character in the field, without white space around it. A
    /// blank field adds nothing.
    pub fn add_character(&mut self)
        ensures
            ({
                let name = text::trimmed(old(self).new_character_buffer@);
                if name.len() > 0 {
                    &&& text::views(final(self).config.characters@) == text::views(
                        old(self).config.characters@,
                    ).push(name)
                    &&& final(self).new_character_buffer@.len() == 0
                    &&& *final(self) == (ConfigPanel {
                        config: Config {
                            characters: final(self).config.characters,
                            ..old(self).config
                        },
                        dirty: true,
                        new_character_buffer: final(self).new_character_buffer,
                        ..*old(self)
                    })
                } else {
                    *final(self) == *old(self)
                }
            }),
    {
        let name: String = text::trim(self.new_character_buffer.as_str());
        if name.as_str().unicode_len() > 0 {
            let ghost wanted = text::views(self.config.characters@).push(name@);
            self.config.characters.push(name);
            assert(text::views(self.config.characters@) =~= wanted);
            self.new_character_buffer = String::new();
            self.dirty = true;
        }
    }

    /// Chooses the size of the previews; it applies at once.
    pub fn set_preview_size(&mut self, width: u32, height: u32)
        ensures
            *final(self) == (if width == old(self).config.preview_width && height
                == old(self).config.preview_height {
                *old(self)
            } else {
                ConfigPanel {
                    config: Config {
                        preview_width: width,
                        preview_height: height,
                        ..old(self).config
                    },
                    dirty: true,
                    live: LiveSettings {
                        preview_width: width,
                        preview_height: height,
                        ..old(self).live
                    },
                    ..*old(self)
                }
            }),
    {
        if width != self.config.preview_width || height != self.config.preview_height {
            self.config.preview_width = width;
            self.config.preview_height = height;
            self.dirty = true;
            self.live.preview_width = width;
            self.live.preview_height = height;
        }
    }

    /// Takes over what a save came to.
    pub fn saved(&mut self, result: Result<(), String>)
        ensures
            final(self).config == old(self).config,
            final(self).live == old(self).live,
            final(self).new_character_buffer == old(self).new_character_buffer,
            match result {
                Ok(_) => !final(self).dirty && (final(self).status matches Some(s) && s@
                    == "✓ Saved — daemon will pick up changes"@),
                Err(e) => final(self).dirty == old(self).dirty && (
                final(self).status matches Some(s) && s@ == "✗ Save failed: "@ + e@),
            },
    {
        match result {
            Ok(_) => {
                self.dirty = false;
                self.status = Some("✓ Saved — daemon will pick up changes".to_owned());
            },
            Err(e) => {
                self.status = Some(text::joined("✗ Save failed: ", e.as_str()));
            },
        }
    }

    /// Takes over what a reload came to.
    pub fn reloaded(&mut self, result: Result<Config, String>)
        ensures
            final(self).live == old(self).live,
            final(self).new_character_buffer == old(self).new_character_buffer,
            match result {
                Ok(c) => final(self).config == c && !final(self).dirty && (
                final(self).status matches Some(s) && s@ == "✓ Reloaded from disk"@),
                Err(e) => final(self).config == old(self).config && final(self).dirty
                    == old(self).dirty && (final(self).status matches Some(s) && s@
                    == "✗ Reload failed: "@ + e@),
            },
    {
        match result {
            Ok(c) => {
                self.config = c;
                self.dirty = false;
                self.status = Some("✓ Reloaded from disk".to_owned());
            },
            Err(e) => {
                self.status = Some(text::joined("✗ Reload failed: ", e.as_str()));
            },
        }
    }

    /// What the footer says: the last message, else whether there are
    /// unsaved changes.
    pub fn footer(&self) -> (r: Option<String>)
        ensures
            match self.status {
                Some(s) => r matches Some(t) && t@ == s@,
                None => if self.dirty {
                    r matches Some(t) && t@ == "Unsaved changes"@
                } else {
                    r is None
                },
            },
    {
        match &self.status {
            Some(s) => Some(s.clone()),
            None => if self.dirty {
                Some("Unsaved changes".to_owned())
            } else {
                None
            },
        }
    }
}

/// Edited characters are unsaved changes, and do not apply before they are
/// saved.
pub proof fn law_edits_are_noticed(before: ConfigPanel, names: Seq<Seq<char>>, after: ConfigPanel)
    requires
        before.with_characters(names, after),
    ensures
        after.dirty,
        text::views(after.config.characters@) == names,
        after.live == before.live,
{
}

/// A change of the characters leaves every other setting, the field and the
/// footer as they were.
pub proof fn law_edits_change_the_characters_alone(
    before: ConfigPanel,
    names: Seq<Seq<char>>,
    after: ConfigPanel,
)
    requires
        before.with_characters(names, after),
    ensures
        after.config.characters@.len() == names.len(),
        forall|i: int| 0 <= i < names.len() ==> (#[trigger] after.config.characters@[i])@ == names[i],
        after.config == (Config { characters: after.config.characters, ..before.config }),
        after.new_character_buffer == before.new_character_buffer,
        after.status == before.status,
        after.live == before.live,
        after.dirty,
{
    assert(text::views(after.config.characters@).len() == names.len());
    assert forall|i: int| 0 <= i < names.len() implies (#[trigger] after.config.characters@[i])@
        == names[i] by {
        assert(text::views(after.config.characters@)[i] == names[i]);
    }
}

/// The twelve function keys, Tab and Space are offered under the name that the
/// key has everywhere else.
pub proof fn law_choices_have_the_names_of_the_keys(code: u16)
    ensures
        0x70 <= code <= 0x7b || code == 0x09 || code == 0x20 ==> vk_choice(code) == Some(
            crate::key_codes::label(crate::config::Platform::Windows, code, None),
        ),
        vk_choice(code) is Some ==> 0x70 <= code <= 0x7b || code == 0x09 || code == 0x20 || code
            == 0xc0,
{
    reveal_with_fuel(crate::numerals::digits, 3);
    reveal_strlit("F");
    reveal_strlit("F1");
    reveal_strlit("F2");
    reveal_strlit("F3");
    reveal_strlit("F4");
    reveal_strlit("F5");
    reveal_strlit("F6");
    reveal_strlit("F7");
    reveal_strlit("F8");
    reveal_strlit("F9");
    reveal_strlit("F10");
    reveal_strlit("F11");
    reveal_strlit("F12");
    if 0x70 <= code <= 0x7b {
        let n = (code - 0x6f) as u16;
        let shown = crate::key_codes::function_label(n);
        assert(crate::key_codes::label(crate::config::Platform::Windows, code, None) == shown);
        assert(vk_choice(code).unwrap() =~= shown);
    }
}

} // verus!
