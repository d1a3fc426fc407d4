//! Page selection, page separators and the fidelity tier.
use vstd::prelude::*;
use crate::error::Pdf2MdError;
use crate::text::{decimal, usize_decimal};

verus! {

/// Which Markdown constructs the vision model is asked to produce.
#[derive(Debug, Clone, Copy, PartialEq, Eq, Structural)]
pub enum FidelityTier {
    /// Text, headings and lists only.
    Tier1,
    /// Adds GFM tables and footnotes.
    Tier2,
    /// Adds math, HTML-table fallback and image captions.
    Tier3,
}

impl Default for FidelityTier {
    fn default() -> (r: Self)
        ensures
            r == FidelityTier::Tier2,
    {
        FidelityTier::Tier2
    }
}

/// Which pages to convert, numbered from one.
#[derive(Debug, Clone)]
pub enum PageSelection {
    /// Every page.
    All,
    /// One page.
    Single(usize),
    /// The pages `lo..=hi`.
    Range(usize, usize),
    /// The listed pages, in any order and possibly repeated.
    List(Vec<usize>),
}

impl Default for PageSelection {
    fn default() -> (r: Self)
        ensures
            r is All,
    {
        PageSelection::All
    }
}

/// A sequence of integers in strictly increasing order.
pub open spec fn strictly_increasing(s: Seq<usize>) -> bool {
    forall|a: int, b: int| 0 <= a < b < s.len() ==> s[a] < s[b]
}

impl PageSelection {
    /// The selection picks the page at 0-based position `i` of a document
    /// with `total` pages.
    pub open spec fn selects(&self, total: nat, i: int) -> bool {
        0 <= i < total && match self {
            PageSelection::All => true,
            PageSelection::Single(p) => i == p - 1,
            PageSelection::Range(lo, hi) => (if *lo >= 1 {
                lo - 1
            } else {
                0
            }) <= i && i < *hi,
            PageSelection::List(ps) => ps@.contains((i + 1) as usize),
        }
    }

    /// The selected 0-based page positions: strictly increasing, each below
    /// `total_pages`, and exactly those the selection picks.
    pub fn to_indices(&self, total_pages: usize) -> (r: Vec<usize>)
        ensures
            strictly_increasing(r@),
            forall|k: int| 0 <= k < r.len() ==> self.selects(total_pages as nat, #[trigger] r@[k] as int),
            forall|i: int| #[trigger] self.selects(total_pages as nat, i) ==> r@.contains(i as usize),
    {
        match self {
            PageSelection::All => range_vec(0, total_pages),
            PageSelection::Single(p) => {
                let mut r: Vec<usize> = Vec::new();
                if *p >= 1 && *p <= total_pages {
                    r.push(*p - 1);
                    assert(r@[0] == *p - 1);
                }
                r
            },
            PageSelection::Range(lo, hi) => {
                let s: usize = if *lo >= 1 {
                    *lo - 1
                } else {
                    0
                };
                let e: usize = if *hi < total_pages {
                    *hi
                } else {
                    total_pages
                };
                if s < e {
                    range_vec(s, e)
                } else {
                    Vec::new()
                }
            },
            PageSelection::List(ps) => {
                let mut r: Vec<usize> = Vec::new();
                let mut k: usize = 0;
                while k < ps.len()
                    invariant
                        k <= ps.len(),
                        strictly_increasing(r@),
                        forall|j: int| 0 <= j < r.len() ==> (#[trigger] r@[j]) < total_pages
                            && ps@.subrange(0, k as int).contains((r@[j] + 1) as usize),
                        forall|i: int|
                            0 <= i < total_pages && ps@.subrange(0, k as int).contains(
                                (i + 1) as usize,
                            ) ==> #[trigger] r@.contains(i as usize),
                    decreases ps.len() - k,
                {
                    let p = ps[k];
                    let ghost pre = ps@.subrange(0, k as int);
                    let ghost post = ps@.subrange(0, k + 1);
                    let ghost old_r = r@;
                    assert(post =~= pre.push(p));
                    if p >= 1 && p <= total_pages {
                        insert_sorted(&mut r, p - 1);
                    }
                    assert forall|j: int| 0 <= j < r.len() implies (#[trigger] r@[j]) < total_pages
                        && post.contains((r@[j] + 1) as usize) by {
                        let y = r@[j];
                        assert(r@.contains(y));
                        if old_r.contains(y) {
                            let w = choose|w: int| 0 <= w < old_r.len() && old_r[w] == y;
                            assert(old_r[w] < total_pages && pre.contains((old_r[w] + 1) as usize));
                            let v = choose|v: int| 0 <= v < pre.len() && pre[v] == (y + 1) as usize;
                            assert(post[v] == pre[v]);
                        } else {
                            assert(post[k as int] == p);
                        }
                    }
                    assert forall|i: int|
                        0 <= i < total_pages && post.contains((i + 1) as usize) implies #[trigger] r@.contains(
                        i as usize,
                    ) by {
                        let w = choose|w: int| 0 <= w < post.len() && post[w] == (i + 1) as usize;
                        if w < k {
                            assert(pre[w] == post[w]);
                        }
                    }
                    k += 1;
                }
                assert(ps@.subrange(0, ps.len() as int) =~= ps@);
                r
            },
        }
    }
}

/// The integers `lo..hi` in order.
fn range_vec(lo: usize, hi: usize) -> (r: Vec<usize>)
    requires
        lo <= hi,
    ensures
        r.len() == hi - lo,
        forall|k: int| 0 <= k < r.len() ==> #[trigger] r@[k] == lo + k,
        strictly_increasing(r@),
        forall|i: int| lo <= i < hi ==> #[trigger] r@.contains(i as usize),
{
    let mut r: Vec<usize> = Vec::new();
    let mut i: usize = lo;
    while i < hi
        invariant
            lo <= i <= hi,
            r.len() == i - lo,
            forall|k: int| 0 <= k < r.len() ==> #[trigger] r@[k] == lo + k,
        decreases hi - i,
    {
        r.push(i);
        i += 1;
    }
    assert forall|x: int| lo <= x < hi implies #[trigger] r@.contains(x as usize) by {
        assert(r@[x - lo] == x);
    }
    r
}

/// Inserts `x` into a strictly increasing vector, unless it is already there.
fn insert_sorted(r: &mut Vec<usize>, x: usize)
    requires
        strictly_increasing(old(r)@),
    ensures
        strictly_increasing(final(r)@),
        forall|y: usize| #[trigger] final(r)@.contains(y) <==> (old(r)@.contains(y) || y == x),
{
    let mut pos: usize = 0;
    while pos < r.len() && r[pos] < x
        invariant
            pos <= r.len(),
            r@ == old(r)@,
            forall|j: int| 0 <= j < pos ==> #[trigger] r@[j] < x,
        decreases r.len() - pos,
    {
        pos += 1;
    }
    if pos < r.len() && r[pos] == x {
        assert(r@[pos as int] == x);
        return;
    }
    let ghost before = r@;
    r.insert(pos, x);
    assert(r@ =~= before.subrange(0, pos as int).push(x) + before.subrange(pos as int, before.len() as int));
    assert(before == old(r)@);
    assert forall|y: usize| #[trigger] r@.contains(y) <==> (before.contains(y) || y == x) by {
        if r@.contains(y) {
            let w = choose|w: int| 0 <= w < r@.len() && r@[w] == y;
            if w < pos {
                assert(before[w] == y);
            } else if w > pos {
                assert(before[w - 1] == y);
            }
        }
        if before.contains(y) {
            let w = choose|w: int| 0 <= w < before.len() && before[w] == y;
            if w < pos {
                assert(r@[w] == y);
            } else {
                assert(r@[w + 1] == y);
            }
        }
        if y == x {
            assert(r@[pos as int] == x);
        }
    }
}

/// What goes between two pages in the assembled document.
#[derive(Debug, Clone)]
pub enum PageSeparator {
    /// A blank line.
    Blank,
    /// A horizontal rule.
    HorizontalRule,
    /// An HTML comment naming the page.
    Comment,
    /// A caller-chosen line.
    Custom(String),
}

impl Default for PageSeparator {
    fn default() -> (r: Self)
        ensures
            r is Blank,
    {
        PageSeparator::Blank
    }
}

impl PageSeparator {
    /// The text placed before page `page_num` (numbered from one).
    pub open spec fn render_spec(&self, page_num: nat) -> Seq<char> {
        match self {
            PageSeparator::Blank => "\n\n"@,
            PageSeparator::HorizontalRule => "\n\n---\n\n"@,
            PageSeparator::Comment => "\n\n<!-- page "@ + decimal(page_num) + " -->\n\n"@,
            PageSeparator::Custom(s) => "\n\n"@ + s@ + "\n\n"@,
        }
    }

    /// Renders the separator placed before page `page_num` (numbered from one).
    pub fn render(&self, page_num: usize) -> (r: String)
        ensures
            r@ == self.render_spec(page_num as nat),
    {
        match self {
            PageSeparator::Blank => "\n\n".to_owned(),
            PageSeparator::HorizontalRule => "\n\n---\n\n".to_owned(),
            PageSeparator::Comment => {
                let mut r = "\n\n<!-- page ".to_owned();
                r.append(usize_decimal(page_num).as_str());
                r.append(" -->\n\n");
                r
            },
            PageSeparator::Custom(s) => {
                let mut r = "\n\n".to_owned();
                r.append(s.as_str());
                r.append("\n\n");
                r
            },
        }
    }
}

/// The knobs of a conversion, apart from the sampling temperature and the
/// provider handle, which the application holds beside it.
#[derive(Debug, Clone)]
pub struct ConversionConfig {
    /// Rendering resolution, 72 to 400.
    pub dpi: u32,
    /// Cap on the longest rendered edge, in pixels.
    pub max_rendered_pixels: u32,
    /// Model calls in flight at once.
    pub concurrency: usize,
    /// Model identifier; the provider's default when absent.
    pub model: Option<String>,
    /// Provider name, such as `openai`.
    pub provider_name: Option<String>,
    /// Output token limit per page.
    pub max_tokens: usize,
    /// Retries after a failed model call.
    pub max_retries: u32,
    /// Wait before the first retry; doubles for each further one.
    pub retry_backoff_ms: u64,
    /// Password of an encrypted PDF.
    pub password: Option<String>,
    /// System prompt replacing the default one.
    pub system_prompt: Option<String>,
    /// Process pages one at a time, each seeing the previous page.
    pub maintain_format: bool,
    pub fidelity: FidelityTier,
    pub pages: PageSelection,
    pub page_separator: PageSeparator,
    /// Prepend YAML front-matter with the document metadata.
    pub include_metadata: bool,
    pub download_timeout_secs: u64,
    pub api_timeout_secs: u64,
}

impl ConversionConfig {
    /// The default configuration.
    pub open spec fn default_spec(c: ConversionConfig) -> bool {
        &&& c.dpi == 150
        &&& c.max_rendered_pixels == 2000
        &&& c.concurrency == 10
        &&& c.model is None
        &&& c.provider_name is None
        &&& c.max_tokens == 4096
        &&& c.max_retries == 3
        &&& c.retry_backoff_ms == 500
        &&& c.password is None
        &&& c.system_prompt is None
        &&& !c.maintain_format
        &&& c.fidelity == FidelityTier::Tier2
        &&& c.pages is All
        &&& c.page_separator is Blank
        &&& !c.include_metadata
        &&& c.download_timeout_secs == 120
        &&& c.api_timeout_secs == 60
    }

    /// A builder starting from the defaults.
    pub fn builder() -> (r: ConversionConfigBuilder)
        ensures
            ConversionConfig::default_spec(r.config),
    {
        ConversionConfigBuilder { config: ConversionConfig::default() }
    }
}

impl Default for ConversionConfig {
    fn default() -> (r: Self)
        ensures
            ConversionConfig::default_spec(r),
    {
        ConversionConfig {
            dpi: 150,
            max_rendered_pixels: 2000,
            concurrency: 10,
            model: None,
            provider_name: None,
            max_tokens: 4096,
            max_retries: 3,
            retry_backoff_ms: 500,
            password: None,
            system_prompt: None,
            maintain_format: false,
            fidelity: FidelityTier::Tier2,
            pages: PageSelection::All,
            page_separator: PageSeparator::Blank,
            include_metadata: false,
            download_timeout_secs: 120,
            api_timeout_secs: 60,
        }
    }
}

/// Builds a [`ConversionConfig`] one knob at a time.
#[derive(Debug)]
pub struct ConversionConfigBuilder {
    pub config: ConversionConfig,
}

impl ConversionConfigBuilder {
    /// Sets the resolution, clamped into 72..=400.
    pub fn dpi(self, dpi: u32) -> (r: Self)
        ensures
            r.config == (ConversionConfig {
                dpi: if dpi < 72 {
                    72
                } else if dpi > 400 {
                    400
                } else {
                    dpi
                },
                ..self.config
            }),
    {
        let mut b = self;
        b.config.dpi = if dpi < 72 {
            72
        } else if dpi > 400 {
            400
        } else {
            dpi
        };
        b
    }

    /// Sets the pixel cap, at least 100.
    pub fn max_rendered_pixels(self, px: u32) -> (r: Self)
        ensures
            r.config == (ConversionConfig {
                max_rendered_pixels: if px < 100 {
                    100
                } else {
                    px
                },
                ..self.config
            }),
    {
        let mut b = self;
        b.config.max_rendered_pixels = if px < 100 {
            100
        } else {
            px
        };
        b
    }

    /// Sets the concurrency, at least one.
    pub fn concurrency(self, n: usize) -> (r: Self)
        ensures
            r.config == (ConversionConfig {
                concurrency: if n < 1 {
                    1
                } else {
                    n
                },
                ..self.config
            }),
    {
        let mut b = self;
        b.config.concurrency = if n < 1 {
            1
        } else {
            n
        };
        b
    }

    /// Sets the model identifier.
    pub fn model(self, model: String) -> (r: Self)
        ensures
            r.config == (ConversionConfig { model: Some(model), ..self.config }),
    {
        let mut b = self;
        b.config.model = Some(model);
        b
    }

    /// Sets the provider name.
    pub fn provider_name(self, name: String) -> (r: Self)
        ensures
            r.config == (ConversionConfig { provider_name: Some(name), ..self.config }),
    {
        let mut b = self;
        b.config.provider_name = Some(name);
        b
    }

    /// Sets the output token limit per page.
    pub fn max_tokens(self, n: usize) -> (r: Self)
        ensures
            r.config == (ConversionConfig { max_tokens: n, ..self.config }),
    {
        let mut b = self;
        b.config.max_tokens = n;
        b
    }

    /// Sets the number of retries.
    pub fn max_retries(self, n: u32) -> (r: Self)
        ensures
            r.config == (ConversionConfig { max_retries: n, ..self.config }),
    {
        let mut b = self;
        b.config.max_retries = n;
        b
    }

    /// Sets the first retry wait.
    pub fn retry_backoff_ms(self, ms: u64) -> (r: Self)
        ensures
            r.config == (ConversionConfig { retry_backoff_ms: ms, ..self.config }),
    {
        let mut b = self;
        b.config.retry_backoff_ms = ms;
        b
    }

    /// Sets the PDF password.
    pub fn password(self, pwd: String) -> (r: Self)
        ensures
            r.config == (ConversionConfig { password: Some(pwd), ..self.config }),
    {
        let mut b = self;
        b.config.password = Some(pwd);
        b
    }

    /// Sets the system prompt.
    pub fn system_prompt(self, prompt: String) -> (r: Self)
        ensures
            r.config == (ConversionConfig { system_prompt: Some(prompt), ..self.config }),
    {
        let mut b = self;
        b.config.system_prompt = Some(prompt);
        b
    }

    /// Sets sequential maintain-format mode.
    pub fn maintain_format(self, v: bool) -> (r: Self)
        ensures
            r.config == (ConversionConfig { maintain_format: v, ..self.config }),
    {
        let mut b = self;
        b.config.maintain_format = v;
        b
    }

    /// Sets the fidelity tier.
    pub fn fidelity(self, tier: FidelityTier) -> (r: Self)
        ensures
            r.config == (ConversionConfig { fidelity: tier, ..self.config }),
    {
        let mut b = self;
        b.config.fidelity = tier;
        b
    }

    /// Sets the page selection.
    pub fn pages(self, selection: PageSelection) -> (r: Self)
        ensures
            r.config == (ConversionConfig { pages: selection, ..self.config }),
    {
        let mut b = self;
        b.config.pages = selection;
        b
    }

    /// Sets the page separator.
    pub fn page_separator(self, sep: PageSeparator) -> (r: Self)
        ensures
            r.config == (ConversionConfig { page_separator: sep, ..self.config }),
    {
        let mut b = self;
        b.config.page_separator = sep;
        b
    }

    /// Sets whether front-matter is prepended.
    pub fn include_metadata(self, v: bool) -> (r: Self)
        ensures
            r.config == (ConversionConfig { include_metadata: v, ..self.config }),
    {
        let mut b = self;
        b.config.include_metadata = v;
        b
    }

    /// Sets the download timeout.
    pub fn download_timeout_secs(self, secs: u64) -> (r: Self)
        ensures
            r.config == (ConversionConfig { download_timeout_secs: secs, ..self.config }),
    {
        let mut b = self;
        b.config.download_timeout_secs = secs;
        b
    }

    /// Sets the per-call timeout.
    pub fn api_timeout_secs(self, secs: u64) -> (r: Self)
        ensures
            r.config == (ConversionConfig { api_timeout_secs: secs, ..self.config }),
    {
        let mut b = self;
        b.config.api_timeout_secs = secs;
        b
    }

    /// The configuration, or `InvalidConfig` when the resolution is outside
    /// 72..=400 or the concurrency is zero.
    pub fn build(self) -> (r: Result<ConversionConfig, Pdf2MdError>)
        ensures
            r is Ok <==> (72 <= self.config.dpi <= 400 && self.config.concurrency >= 1),
            r matches Ok(c) ==> c == self.config,
            r matches Err(e) ==> e is InvalidConfig,
    {
        if self.config.dpi < 72 || self.config.dpi > 400 {
            let mut m = "DPI must be 72–400, got ".to_owned();
            m.append(usize_decimal(self.config.dpi as usize).as_str());
            return Err(Pdf2MdError::InvalidConfig(m));
        }
        if self.config.concurrency == 0 {
            return Err(Pdf2MdError::InvalidConfig("Concurrency must be ≥ 1".to_owned()));
        }
        Ok(self.config)
    }
}

} // verus!
