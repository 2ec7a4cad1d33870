//! Handlers for the page's events.
use crate::backend::DomBackend;
use crate::effect::{lemma_views_push, views, Attribute, Effect, Handler};
use crate::geometry::Position;
use crate::options::DomBackendOptions;
use vstd::prelude::*;

verus! {

/// Where a click leads. The page's own reaction to the click is then prevented.
#[derive(Debug, PartialEq, Eq)]
pub struct Navigation {
    /// The address to open.
    pub url: String,
    /// The browsing context to open it in.
    pub target: &'static str,
}

impl DomBackend {
    /// The work that hands mouse and wheel events to a new handler. Handlers
    /// that are in place are removed first.
    pub fn on_mouse_event(&self) -> (effects: Vec<Effect>)
        ensures
            views(effects@) == self@.mouse_effects(),
            effects@ == seq![
                Effect::Forget { handler: Handler::Mouse },
                Effect::Forget { handler: Handler::Wheel },
                Effect::ListenForMouse { size: self@.size },
                Effect::ListenForWheel { size: self@.size },
            ],
    {
        broadcast use lemma_views_push;

        let mut effects = self.clear_mouse_events();
        effects.push(Effect::ListenForMouse { size: self.size });
        effects.push(Effect::ListenForWheel { size: self.size });
        assert(views(effects@) =~= self@.mouse_effects());
        effects
    }

    /// The work that removes the handlers of mouse and wheel events.
    pub fn clear_mouse_events(&self) -> (effects: Vec<Effect>)
        ensures
            views(effects@) == self@.clear_mouse_effects(),
            effects@ == seq![
                Effect::Forget { handler: Handler::Mouse },
                Effect::Forget { handler: Handler::Wheel },
            ],
    {
        let mut effects: Vec<Effect> = Vec::new();
        effects.push(Effect::Forget { handler: Handler::Mouse });
        effects.push(Effect::Forget { handler: Handler::Wheel });
        assert(views(effects@) =~= self@.clear_mouse_effects());
        effects
    }

    /// The work that hands key events to a new handler. A handler that is in
    /// place is removed first, and the grid is made focusable, so that it gets
    /// key events.
    pub fn on_key_event(&self) -> (effects: Vec<Effect>)
        ensures
            views(effects@) == self@.key_effects(),
    {
        broadcast use lemma_views_push;

        let mut effects = self.clear_key_events();
        effects.push(Effect::SetGridAttribute { attribute: Attribute::new("tabindex", "0") });
        effects.push(Effect::ListenForKeys);
        assert(views(effects@) =~= self@.key_effects());
        effects
    }

    /// The work that removes the handler of key events.
    pub fn clear_key_events(&self) -> (effects: Vec<Effect>)
        ensures
            views(effects@) == self@.clear_key_effects(),
    {
        let mut effects: Vec<Effect> = Vec::new();
        effects.push(Effect::Forget { handler: Handler::Key });
        assert(views(effects@) =~= self@.clear_key_effects());
        effects
    }

    /// Where a click on the grid leads. `anchor` is the innermost hyperlink
    /// anchor around what was clicked, if there is one, as the value of its
    /// `href`, if it has one. A click on anything else leads nowhere.
    pub fn hyperlink_click(anchor: Option<Option<String>>) -> (navigation: Option<Navigation>)
        ensures
            match navigation {
                Some(navigation) => {
                    &&& anchor matches Some(Some(url)) && navigation.url@ == url@
                    &&& navigation.target@ == "_blank"@
                },
                None => !(anchor matches Some(Some(_))),
            },
    {
        match anchor {
            Some(Some(url)) => Some(Navigation { url, target: "_blank" }),
            _ => None,
        }
    }

    /// Tests whether a handler is in place.
    pub fn has_handler(&self, handler: Handler) -> (yes: bool)
        ensures
            yes == self@.has_handler(handler),
    {
        match handler {
            Handler::Mouse => self.mouse_callback,
            Handler::Wheel => self.wheel_callback,
            Handler::HyperlinkClick => self.hyperlink_click_callback,
            Handler::Key => self.key_callback,
        }
    }

    /// Tests whether the grid was drawn since it was last resized.
    pub fn is_initialized(&self) -> (yes: bool)
        ensures
            yes == self@.initialized,
    {
        self.initialized
    }

    /// Returns the cursor's position, if it has one.
    pub fn cursor(&self) -> (position: Option<Position>)
        ensures
            position == self@.cursor,
    {
        self.cursor_position
    }

    /// Returns the options.
    pub fn options(&self) -> (options: &DomBackendOptions)
        ensures
            options@ == self@.options,
    {
        &self.options
    }

    /// Tests whether there is a cell at a position.
    pub fn contains(&self, at: Position) -> (yes: bool)
        ensures
            yes == self@.in_range(at),
            yes == (at.y * self@.size.width + at.x <= 65535 && at.y * self@.size.width + at.x
                < self@.buffer.len()),
    {
        at.addressable(self.size.width) && at.cell_index(self.size.width)
            < self.cell_buffer.len()
    }
}

} // verus!
