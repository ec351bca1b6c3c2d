use vstd::prelude::*;

verus! {

/// A struct describing a display to be created.
#[derive(Clone, Debug)]
pub struct DisplayInfo {
    pub width: u32,
    pub height: u32,
    pub title: String,
    pub transparent: bool,
    pub decorations: bool,
    pub monitor: i32,
    pub vsync: bool,
    pub visible: bool,
}

impl DisplayInfo {
    /// Whether the fields hold the defaults: a visible, decorated 640x480 window
    /// with an empty title, no transparency, no vsync, on the default monitor (-1).
    pub open spec fn is_default(self) -> bool {
        &&& self.width == 640
        &&& self.height == 480
        &&& self.title@ == Seq::<char>::empty()
        &&& !self.transparent
        &&& self.decorations
        &&& self.monitor == -1
        &&& !self.vsync
        &&& self.visible
    }
}

impl Default for DisplayInfo {
    fn default() -> (r: DisplayInfo)
        ensures
            r.is_default(),
    {
        DisplayInfo {
            width: 640,
            height: 480,
            title: String::new(),
            transparent: false,
            decorations: true,
            monitor: -1,
            vsync: false,
            visible: true,
        }
    }
}

/// A display builder.
#[must_use]
#[derive(Clone, Debug)]
pub struct DisplayBuilder {
    info: DisplayInfo,
}

/// Creates a display builder holding the default display description.
pub fn create_displaybuilder() -> (r: DisplayBuilder)
    ensures
        r.info().is_default(),
{
    DisplayBuilder { info: DisplayInfo::default() }
}

impl DisplayBuilder {
    /// The display description built so far.
    pub closed spec fn info(self) -> DisplayInfo {
        self.info
    }

    /// Returns the display description built so far.
    pub fn get_info(&self) -> (r: &DisplayInfo)
        ensures
            *r == self.info(),
    {
        &self.info
    }

    /// Sets a width for the display.
    pub fn width(self, width: u32) -> (r: Self)
        ensures
            r.info() == (DisplayInfo { width, ..self.info() }),
    {
        let mut b = self;
        b.info.width = width;
        b
    }

    /// Sets a height for the display.
    pub fn height(self, height: u32) -> (r: Self)
        ensures
            r.info() == (DisplayInfo { height, ..self.info() }),
    {
        let mut b = self;
        b.info.height = height;
        b
    }

    /// Sets dimensions for the display.
    pub fn dimensions(self, dimensions: (u32, u32)) -> (r: Self)
        ensures
            r.info() == (DisplayInfo { width: dimensions.0, height: dimensions.1, ..self.info() }),
    {
        let mut b = self;
        b.info.width = dimensions.0;
        b.info.height = dimensions.1;
        b
    }

    /// Sets a title for the display.
    pub fn title(self, title: &str) -> (r: Self)
        ensures
            r.info().title@ == title@,
            r.info() == (DisplayInfo { title: r.info().title, ..self.info() }),
    {
        let mut b = self;
        b.info.title = title.to_owned();
        b
    }

    /// Flags the display to be transparent.
    pub fn transparent(self) -> (r: Self)
        ensures
            r.info() == (DisplayInfo { transparent: true, ..self.info() }),
    {
        let mut b = self;
        b.info.transparent = true;
        b
    }

    /// Flags the display to be borderless.
    pub fn borderless(self) -> (r: Self)
        ensures
            r.info() == (DisplayInfo { decorations: false, ..self.info() }),
    {
        let mut b = self;
        b.info.decorations = false;
        b
    }

    /// Sets the monitor to create the display on.
    pub fn monitor(self, id: i32) -> (r: Self)
        ensures
            r.info() == (DisplayInfo { monitor: id, ..self.info() }),
    {
        let mut b = self;
        b.info.monitor = id;
        b
    }

    /// Flags the display to use vsync.
    pub fn vsync(self) -> (r: Self)
        ensures
            r.info() == (DisplayInfo { vsync: true, ..self.info() }),
    {
        let mut b = self;
        b.info.vsync = true;
        b
    }

    /// Flags the display to be initialially hidden.
    pub fn hidden(self) -> (r: Self)
        ensures
            r.info() == (DisplayInfo { visible: false, ..self.info() }),
    {
        let mut b = self;
        b.info.visible = false;
        b
    }
}

/// A font query builder: describes the fonts to look up among the installed fonts.
#[must_use]
#[derive(Clone, Debug)]
pub struct FontQueryBuilder {
    family: String,
    italic: bool,
    oblique: bool,
    monospace: bool,
}

impl FontQueryBuilder {
    /// The font family searched for (empty for any).
    pub closed spec fn spec_family(self) -> Seq<char> {
        self.family@
    }

    /// Whether italic fonts are searched for.
    pub closed spec fn spec_italic(self) -> bool {
        self.italic
    }

    /// Whether oblique fonts are searched for.
    pub closed spec fn spec_oblique(self) -> bool {
        self.oblique
    }

    /// Whether monospace fonts are searched for.
    pub closed spec fn spec_monospace(self) -> bool {
        self.monospace
    }

    /// Creates a new query for any font family, with no style flags set.
    pub fn new() -> (r: FontQueryBuilder)
        ensures
            r.spec_family() == Seq::<char>::empty(),
            !r.spec_italic(),
            !r.spec_oblique(),
            !r.spec_monospace(),
    {
        FontQueryBuilder { family: String::new(), italic: false, oblique: false, monospace: false }
    }

    /// Sets a family for the fonts.
    pub fn family(self, family: &str) -> (r: Self)
        ensures
            r.spec_family() == family@,
            r.spec_italic() == self.spec_italic(),
            r.spec_oblique() == self.spec_oblique(),
            r.spec_monospace() == self.spec_monospace(),
    {
        let mut b = self;
        b.family = family.to_owned();
        b
    }

    /// Flags the fonts to be italic.
    pub fn italic(self) -> (r: Self)
        ensures
            r.spec_family() == self.spec_family(),
            r.spec_italic(),
            r.spec_oblique() == self.spec_oblique(),
            r.spec_monospace() == self.spec_monospace(),
    {
        let mut b = self;
        b.italic = true;
        b
    }

    /// Flags the fonts to be oblique.
    pub fn oblique(self) -> (r: Self)
        ensures
            r.spec_family() == self.spec_family(),
            r.spec_italic() == self.spec_italic(),
            r.spec_oblique(),
            r.spec_monospace() == self.spec_monospace(),
    {
        let mut b = self;
        b.oblique = true;
        b
    }

    /// Flags the fonts to be monospace.
    pub fn monospace(self) -> (r: Self)
        ensures
            r.spec_family() == self.spec_family(),
            r.spec_italic() == self.spec_italic(),
            r.spec_oblique() == self.spec_oblique(),
            r.spec_monospace(),
    {
        let mut b = self;
        b.monospace = true;
        b
    }

    /// Returns the family searched for.
    pub fn get_family(&self) -> (r: &str)
        ensures
            r@ == self.spec_family(),
    {
        self.family.as_str()
    }

    /// Returns the style flags searched for: italic, oblique, monospace.
    pub fn get_flags(&self) -> (r: (bool, bool, bool))
        ensures
            r == (self.spec_italic(), self.spec_oblique(), self.spec_monospace()),
    {
        (self.italic, self.oblique, self.monospace)
    }
}

} // verus!
