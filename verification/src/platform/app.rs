use vstd::prelude::*;
use vstd::string::*;

verus! {

broadcast use vstd::string::group_string_axioms;

/// Window configuration: title and size in logical pixels.
pub struct AppConfig {
    pub title: String,
    pub width: u32,
    pub height: u32,
}

/// Windowed application builder.
pub struct TezzeraApp {
    config: AppConfig,
}

impl View for TezzeraApp {
    type V = (Seq<char>, u32, u32);

    closed spec fn view(&self) -> (Seq<char>, u32, u32) {
        (self.config.title@, self.config.width, self.config.height)
    }
}

impl TezzeraApp {
    /// An application titled "Tezzera", 800 × 600.
    pub fn new() -> (a: TezzeraApp)
        ensures
            a@ == ("Tezzera"@, 800u32, 600u32),
    {
        TezzeraApp { config: AppConfig { title: String::from_str("Tezzera"), width: 800, height: 600 } }
    }

    /// Sets the window title.
    pub fn title(self, t: &str) -> (a: TezzeraApp)
        ensures
            a@ == (t@, self@.1, self@.2),
    {
        TezzeraApp { config: AppConfig { title: t.to_owned(), ..self.config } }
    }

    /// Sets the window size.
    pub fn size(self, w: u32, h: u32) -> (a: TezzeraApp)
        ensures
            a@ == (self@.0, w, h),
    {
        TezzeraApp { config: AppConfig { width: w, height: h, ..self.config } }
    }

    /// The configuration the window is opened with.
    pub fn into_config(self) -> (c: AppConfig)
        ensures
            (c.title@, c.width, c.height) == self@,
    {
        self.config
    }
}

impl Default for TezzeraApp {
    fn default() -> (a: TezzeraApp)
        ensures
            a@ == ("Tezzera"@, 800u32, 600u32),
    {
        TezzeraApp::new()
    }
}

/// The 0RGB word of a pixel: red in bits 16–23, green in 8–15, blue in 0–7.
pub open spec fn packed_pixel(r: u8, g: u8, b: u8) -> int {
    r as int * 65536 + g as int * 256 + b as int
}

/// Converts the first `count` pixels of an RGBA byte buffer to 0RGB words,
/// dropping alpha.
pub fn pack_rgb(rgba: &[u8], count: usize) -> (out: Vec<u32>)
    requires
        count * 4 <= rgba@.len(),
    ensures
        out@.len() == count,
        forall|i: int| 0 <= i < count ==> #[trigger] out@[i] == packed_pixel(rgba@[4 * i], rgba@[4 * i + 1], rgba@[4 * i + 2]),
{
    let mut out: Vec<u32> = Vec::new();
    let mut i: usize = 0;
    let len = rgba.len();
    while i < count
        invariant
            count * 4 <= rgba@.len(),
            len == rgba@.len(),
            i <= count,
            out@.len() == i,
            forall|k: int| 0 <= k < i ==> #[trigger] out@[k] == packed_pixel(rgba@[4 * k], rgba@[4 * k + 1], rgba@[4 * k + 2]),
        decreases count - i,
    {
        assert(i * 4 + 3 < count * 4) by (nonlinear_arith)
            requires i < count;
        let r = rgba[i * 4];
        let g = rgba[i * 4 + 1];
        let b = rgba[i * 4 + 2];
        let p: u32 = ((r as u32) << 16) | ((g as u32) << 8) | (b as u32);
        assert(((r as u32) << 16) | ((g as u32) << 8) | (b as u32) == (r as u32) * 65536 + (g as u32) * 256 + (b as u32)) by (bit_vector);
        out.push(p);
        i = i + 1;
    }
    out
}

} // verus!
