//! A plugin's own user interface: which kind it offers, and whether it exists.

use vstd::prelude::*;

verus! {

/// A size in pixels.
#[derive(Debug, Clone, Copy, PartialEq, Eq, Structural)]
pub struct GuiSize {
    pub width: u32,
    pub height: u32,
}

/// How a plugin's interface is shown: on which windowing system, and whether
/// in a window of its own.
#[derive(Debug, Clone, PartialEq, Eq)]
pub struct GuiConfiguration {
    pub api_type: String,
    pub is_floating: bool,
}

/// What a plugin's interface failed at.
#[derive(Debug, Clone, Copy, PartialEq, Eq, Structural)]
pub enum GuiError {
    CreateError,
    SetParentError,
    ShowError,
}

/// An error in words.
pub open spec fn gui_error_words(error: GuiError) -> Seq<char> {
    match error {
        GuiError::CreateError => "Failed to create plugin GUI"@,
        GuiError::SetParentError => "Failed to set plugin window parent"@,
        GuiError::ShowError => "Failed to show plugin window"@,
    }
}

impl GuiError {
    /// The error in words.
    pub fn words(&self) -> (r: &'static str)
        ensures
            r@ == gui_error_words(*self),
    {
        match self {
            GuiError::CreateError => "Failed to create plugin GUI",
            GuiError::SetParentError => "Failed to set plugin window parent",
            GuiError::ShowError => "Failed to show plugin window",
        }
    }
}

/// The size of an embedded interface: the one that the plugin reports, or 640
/// by 480.
pub open spec fn embedded_size_of(reported: Option<GuiSize>) -> GuiSize {
    match reported {
        Some(size) => size,
        None => GuiSize { width: 640, height: 480 },
    }
}

/// The size of an embedded interface.
pub fn embedded_size(reported: Option<GuiSize>) -> (r: GuiSize)
    ensures
        r == embedded_size_of(reported),
{
    match reported {
        Some(size) => size,
        None => GuiSize { width: 640, height: 480 },
    }
}

/// What a resize comes to.
#[derive(Debug, Clone, Copy, PartialEq, Eq)]
pub struct ResizeDecision {
    /// The size that the plugin agrees to use.
    pub size: GuiSize,
    /// Whether the plugin has to be told.
    pub apply: bool,
}

/// A plugin's interface.
#[derive(Debug, Clone)]
pub struct Gui {
    /// `None`: the plugin supports no interface that the host can show.
    pub configuration: Option<GuiConfiguration>,
    /// The plugin has created its interface and must be told to destroy it.
    pub is_open: bool,
    pub is_resizable: bool,
    /// The size that the plugin reported when its interface was created.
    pub initial_size: Option<GuiSize>,
}

/// The configuration to use with a plugin: embedded where it can be, else
/// floating where it can be.
pub open spec fn is_negotiated(
    configuration: Option<GuiConfiguration>,
    api_type: Option<String>,
    embedded: bool,
    floating: bool,
) -> bool {
    match api_type {
        Some(api) => if embedded {
            configuration matches Some(c) && c.api_type@ == api@ && !c.is_floating
        } else if floating {
            configuration matches Some(c) && c.api_type@ == api@ && c.is_floating
        } else {
            configuration is None
        },
        None => configuration is None,
    }
}

impl Gui {
    /// An interface that does not exist yet, with the configuration that the
    /// platform's windowing system and the plugin's support for it allow.
    pub fn new(api_type: Option<String>, embedded_supported: bool, floating_supported: bool) -> (r:
        Self)
        ensures
            is_negotiated(r.configuration, api_type, embedded_supported, floating_supported),
            !r.is_open,
            !r.is_resizable,
            r.initial_size is None,
    {
        Gui {
            configuration: Self::negotiate_configuration(
                api_type,
                embedded_supported,
                floating_supported,
            ),
            is_open: false,
            is_resizable: false,
            initial_size: None,
        }
    }

    /// The configuration to use with a plugin.
    pub fn negotiate_configuration(
        api_type: Option<String>,
        embedded_supported: bool,
        floating_supported: bool,
    ) -> (r: Option<GuiConfiguration>)
        ensures
            is_negotiated(r, api_type, embedded_supported, floating_supported),
    {
        match api_type {
            Some(api) => if embedded_supported {
                Some(GuiConfiguration { api_type: api, is_floating: false })
            } else if floating_supported {
                Some(GuiConfiguration { api_type: api, is_floating: true })
            } else {
                None
            },
            None => None,
        }
    }

    /// Whether the interface needs a window of its own; `None` where there is
    /// no interface.
    pub fn needs_floating(&self) -> (r: Option<bool>)
        ensures
            r == (match self.configuration {
                Some(c) => Some(c.is_floating),
                None => None,
            }),
    {
        match &self.configuration {
            Some(c) => Some(c.is_floating),
            None => None,
        }
    }

    /// Whether the interface can be embedded.
    pub open spec fn embeds(&self) -> bool {
        self.configuration matches Some(c) && !c.is_floating
    }

    /// The configuration to create an embedded interface with, if it can be
    /// embedded.
    pub fn embedding_configuration(&self) -> (r: Option<GuiConfiguration>)
        ensures
            match r {
                Some(c) => self.embeds() && c.api_type@ == (self.configuration->0).api_type@
                    && !c.is_floating,
                None => !self.embeds(),
            },
    {
        match &self.configuration {
            Some(c) => if c.is_floating {
                None
            } else {
                Some(GuiConfiguration { api_type: c.api_type.clone(), is_floating: false })
            },
            None => None,
        }
    }

    /// Takes over the outcome of creating an embedded interface: whether the
    /// plugin created it, whether it can be resized, and the size it reports.
    ///
    /// Once this has returned `Ok`, the interface is open and has to be
    /// destroyed, whatever becomes of it.
    pub fn create_for_embedding(
        &mut self,
        created: bool,
        can_resize: bool,
        reported: Option<GuiSize>,
    ) -> (r: Result<GuiSize, GuiError>)
        ensures
            final(self).configuration == old(self).configuration,
            old(self).embeds() && created ==> {
                &&& r == Ok::<GuiSize, GuiError>(embedded_size_of(reported))
                &&& final(self).is_open
                &&& final(self).is_resizable == can_resize
                &&& final(self).initial_size == Some(embedded_size_of(reported))
            },
            !(old(self).embeds() && created) ==> {
                &&& r == Err::<GuiSize, GuiError>(GuiError::CreateError)
                &&& *final(self) == *old(self)
            },
    {
        let possible: bool = match &self.configuration {
            Some(c) => !c.is_floating,
            None => false,
        };
        if !possible || !created {
            return Err(GuiError::CreateError);
        }
        self.is_open = true;
        self.is_resizable = can_resize;
        let size: GuiSize = embedded_size(reported);
        self.initial_size = Some(size);
        Ok(size)
    }

    /// Takes over the outcome of putting the interface into the host's window.
    /// Whether the plugin then reports that it is shown does not matter.
    pub fn attach_and_show(&self, parent_set: bool) -> (r: Result<(), GuiError>)
        ensures
            parent_set ==> r == Ok::<(), GuiError>(()),
            !parent_set ==> r == Err::<(), GuiError>(GuiError::SetParentError),
    {
        if parent_set {
            Ok(())
        } else {
            Err(GuiError::SetParentError)
        }
    }

    /// The configuration to create a floating interface with, if there is an
    /// interface at all.
    pub fn floating_configuration(&self) -> (r: Option<GuiConfiguration>)
        ensures
            match r {
                Some(c) => self.configuration is Some && c.api_type@ == (
                self.configuration->0).api_type@ && c.is_floating,
                None => self.configuration is None,
            },
    {
        match &self.configuration {
            Some(c) => Some(GuiConfiguration { api_type: c.api_type.clone(), is_floating: true }),
            None => None,
        }
    }

    /// Takes over the outcome of creating and showing a floating interface.
    pub fn open_floating(&mut self, outcome: Result<(), GuiError>) -> (r: Result<(), GuiError>)
        ensures
            r == (if old(self).configuration is None {
                Err(GuiError::CreateError)
            } else {
                outcome
            }),
            final(self).is_open == (old(self).is_open || r is Ok),
            final(self).configuration == old(self).configuration,
            final(self).is_resizable == old(self).is_resizable,
            final(self).initial_size == old(self).initial_size,
    {
        if self.configuration.is_none() {
            return Err(GuiError::CreateError);
        }
        if outcome.is_ok() {
            self.is_open = true;
        }
        outcome
    }

    /// What a requested size comes to, given the size that the plugin has now
    /// and the one that it would adjust the request to, where it says so.
    pub fn resize(
        &self,
        requested: GuiSize,
        current: Option<GuiSize>,
        adjusted: Option<GuiSize>,
    ) -> (r: ResizeDecision)
        ensures
            r.apply == self.is_resizable,
            r.size == (match if self.is_resizable {
                adjusted
            } else {
                current
            } {
                Some(size) => size,
                None => requested,
            }),
    {
        let told: Option<GuiSize> = if self.is_resizable {
            adjusted
        } else {
            current
        };
        let size: GuiSize = match told {
            Some(size) => size,
            None => requested,
        };
        ResizeDecision { size, apply: self.is_resizable }
    }

    /// This interface once it is destroyed.
    pub open spec fn destroyed(&self) -> Gui {
        Gui {
            is_open: false,
            initial_size: if self.is_open {
                None
            } else {
                self.initial_size
            },
            ..*self
        }
    }

    /// Ends the interface. Returns whether the plugin has to be told.
    pub fn destroy(&mut self) -> (r: bool)
        ensures
            r == old(self).is_open,
            *final(self) == old(self).destroyed(),
    {
        if self.is_open {
            self.is_open = false;
            self.initial_size = None;
            true
        } else {
            false
        }
    }
}

/// An interface is embedded wherever the plugin can do that, floats where it
/// can do only that, and is not shown where it can do neither.
pub proof fn law_embedding_is_preferred(
    configuration: Option<GuiConfiguration>,
    api: String,
    floating: bool,
)
    ensures
        is_negotiated(configuration, Some(api), true, floating) ==> (
        configuration matches Some(c) && !c.is_floating && c.api_type@ == api@),
        is_negotiated(configuration, Some(api), false, true) ==> (
        configuration matches Some(c) && c.is_floating && c.api_type@ == api@),
        is_negotiated(configuration, Some(api), false, false) ==> configuration is None,
        is_negotiated(configuration, None, true, true) ==> configuration is None,
{
}

/// A destroyed interface is closed and has forgotten its size; it can be
/// created again as before.
pub proof fn law_destroyed_interface_is_closed(gui: Gui)
    ensures
        !gui.destroyed().is_open,
        gui.is_open ==> gui.destroyed().initial_size is None,
        !gui.is_open ==> gui.destroyed() == gui,
        gui.destroyed().configuration == gui.configuration,
        gui.destroyed().is_resizable == gui.is_resizable,
        gui.destroyed().embeds() == gui.embeds(),
{
}

/// An interface has the size that the plugin reports, or 640 by 480.
pub proof fn law_reported_size_is_used(size: GuiSize)
    ensures
        embedded_size_of(Some(size)) == size,
        embedded_size_of(None).width == 640,
        embedded_size_of(None).height == 480,
{
}

} // verus!
