//! Which style sheet is in force.

use vstd::prelude::*;

verus! {

/// The parts of the style sheet: rules that both materials share, the two
/// materials, and the rules for accessibility.
pub struct StyleSheets {
    pub base: String,
    pub liquid: String,
    pub plain: String,
    pub accessibility: String,
}

impl StyleSheets {
    /// The rules of a material.
    pub open spec fn chosen(self, liquid_glass: bool) -> String {
        if liquid_glass {
            self.liquid
        } else {
            self.plain
        }
    }

    /// The rules of a material.
    pub fn material(&self, liquid_glass: bool) -> (material: &String)
        ensures
            *material == self.chosen(liquid_glass),
    {
        if liquid_glass {
            &self.liquid
        } else {
            &self.plain
        }
    }

    /// The whole style sheet around the rules of a material.
    pub fn assemble(&self, material: &str) -> (css: String)
        ensures
            css@ == self.base@ + "\n"@ + material@ + "\n"@ + self.accessibility@,
    {
        let mut css: String = self.base.clone();
        css.append("\n");
        css.append(material);
        css.append("\n");
        css.append(self.accessibility.as_str());
        css
    }

    /// The whole style sheet with the material as it is.
    pub fn build_css(&self, liquid_glass: bool) -> (css: String)
        ensures
            css@ == self.base@ + "\n"@ + self.chosen(liquid_glass)@ + "\n"@
                + self.accessibility@,
    {
        self.assemble(self.material(liquid_glass).as_str())
    }
}

/// Whether the style sheet was put in force.
pub struct GridStyle {
    pub installed: bool,
    /// A style sheet is in force on the display.
    pub active: bool,
}

/// What putting a style sheet in force takes.
#[derive(Clone, Copy, Debug, PartialEq, Eq, Structural)]
pub struct Registration {
    /// Take the one in force away first.
    pub remove_active: bool,
    pub install_new: bool,
}

impl GridStyle {
    /// Nothing was put in force yet.
    pub fn new() -> (style: GridStyle)
        ensures
            !style.installed && !style.active,
    {
        GridStyle { installed: false, active: false }
    }

    /// Whether the style sheet was put in force at least once.
    pub fn is_installed(&self) -> (installed: bool)
        ensures
            installed == self.installed,
    {
        self.installed
    }

    /// Put a style sheet in force, in place of the one before. Without a display
    /// nothing happens.
    fn register(&mut self, has_display: bool) -> (registration: Registration)
        ensures
            registration == (Registration {
                remove_active: has_display && old(self).active,
                install_new: has_display,
            }),
            *final(self) == (GridStyle { active: old(self).active || has_display, ..*old(self) }),
    {
        if !has_display {
            return Registration { remove_active: false, install_new: false };
        }
        let remove_active: bool = self.active;
        self.active = true;
        Registration { remove_active, install_new: true }
    }

    /// Put the style sheet in force. Only the first call does anything.
    pub fn install(&mut self, has_display: bool) -> (registration: Registration)
        ensures
            registration == if old(self).installed {
                Registration { remove_active: false, install_new: false }
            } else {
                Registration {
                    remove_active: has_display && old(self).active,
                    install_new: has_display,
                }
            },
            *final(self) == (GridStyle {
                installed: true,
                active: old(self).active || !old(self).installed && has_display,
            }),
    {
        if self.installed {
            return Registration { remove_active: false, install_new: false };
        }
        self.installed = true;
        self.register(has_display)
    }

    /// Put another style sheet in force.
    pub fn reapply(&mut self, has_display: bool) -> (registration: Registration)
        ensures
            registration == (Registration {
                remove_active: has_display && old(self).active,
                install_new: has_display,
            }),
            *final(self) == (GridStyle {
                installed: true,
                active: old(self).active || has_display,
            }),
    {
        self.installed = true;
        self.register(has_display)
    }
}

} // verus!
