//! What the caller asks for: which photos to pick and in which shape to
//! download them, and how each becomes query parameters.
use vstd::prelude::*;

verus! {

/// A query parameter: a name and its value.
pub type QueryParam = (&'static str, String);

/// A query parameter as a pair of character sequences.
pub open spec fn param_view(p: QueryParam) -> (Seq<char>, Seq<char>) {
    (p.0@, p.1@)
}

/// Query parameters as pairs of character sequences.
pub open spec fn params_view(ps: Seq<QueryParam>) -> Seq<(Seq<char>, Seq<char>)> {
    ps.map_values(|p: QueryParam| param_view(p))
}

/// The decimal digit for `d`, which is below ten.
pub open spec fn digit_char(d: nat) -> char {
    if d == 0 {
        '0'
    } else if d == 1 {
        '1'
    } else if d == 2 {
        '2'
    } else if d == 3 {
        '3'
    } else if d == 4 {
        '4'
    } else if d == 5 {
        '5'
    } else if d == 6 {
        '6'
    } else if d == 7 {
        '7'
    } else if d == 8 {
        '8'
    } else {
        '9'
    }
}

/// `n` written in decimal, without leading zeros.
pub open spec fn decimal(n: nat) -> Seq<char>
    decreases n,
{
    if n < 10 {
        seq![digit_char(n)]
    } else {
        decimal(n / 10).push(digit_char(n % 10))
    }
}

fn digit(d: u64) -> (s: &'static str)
    requires
        d < 10,
    ensures
        s@ == seq![digit_char(d as nat)],
{
    if d == 0 {
        proof {
            reveal_strlit("0");
        }
        "0"
    } else if d == 1 {
        proof {
            reveal_strlit("1");
        }
        "1"
    } else if d == 2 {
        proof {
            reveal_strlit("2");
        }
        "2"
    } else if d == 3 {
        proof {
            reveal_strlit("3");
        }
        "3"
    } else if d == 4 {
        proof {
            reveal_strlit("4");
        }
        "4"
    } else if d == 5 {
        proof {
            reveal_strlit("5");
        }
        "5"
    } else if d == 6 {
        proof {
            reveal_strlit("6");
        }
        "6"
    } else if d == 7 {
        proof {
            reveal_strlit("7");
        }
        "7"
    } else if d == 8 {
        proof {
            reveal_strlit("8");
        }
        "8"
    } else {
        proof {
            reveal_strlit("9");
        }
        "9"
    }
}

/// Writes `n` in decimal.
pub fn to_decimal(n: u64) -> (s: String)
    ensures
        s@ == decimal(n as nat),
    decreases n,
{
    if n < 10 {
        String::from_str(digit(n))
    } else {
        let mut s = to_decimal(n / 10);
        s.append(digit(n % 10));
        s
    }
}

/// A filter on the photos picked: free text, or a topic's id or slug.
#[derive(Debug, Clone, PartialEq, Eq)]
pub enum Query {
    Text(String),
    Topic(String),
}

/// How many photos to pick, and from what.
#[derive(Debug, Clone)]
pub struct Fetch {
    pub count: u32,
    pub query: Option<Query>,
}

impl Default for Fetch {
    /// Ten photos, unfiltered.
    fn default() -> (r: Self)
        ensures
            r.count == 10,
            r.query is None,
    {
        Fetch { count: 10, query: None }
    }
}

/// The parameters that every request for random photos carries.
pub open spec fn fetch_params(count: u32) -> Seq<(Seq<char>, Seq<char>)> {
    seq![("count"@, decimal(count as nat)), ("orientation"@, "landscape"@)]
}

impl Fetch {
    /// The count of photos and a landscape orientation.
    pub fn to_query_params(&self) -> (r: Vec<QueryParam>)
        ensures
            params_view(r@) == fetch_params(self.count),
    {
        let mut r: Vec<QueryParam> = Vec::new();
        r.push(("count", to_decimal(self.count as u64)));
        r.push(("orientation", String::from_str("landscape")));
        assert(params_view(r@) =~= fetch_params(self.count));
        r
    }
}

/// The image format of a download.
#[derive(Debug, Clone, Copy, PartialEq, Eq, Structural)]
pub enum Format {
    Png,
    Jpeg { quality: u8 },
}

/// The size of a download: as uploaded, or scaled to cover a box.
#[derive(Debug, Clone, Copy, PartialEq, Eq, Structural)]
pub enum Resolution {
    Raw,
    Custom { width: u32, height: u32 },
}

/// The shape in which photos are downloaded.
#[derive(Debug, Clone, Copy, PartialEq, Eq, Structural)]
pub struct Download {
    pub format: Format,
    pub resolution: Resolution,
}

/// The file extension of a format.
pub open spec fn extension_of(f: Format) -> Seq<char> {
    match f {
        Format::Png => "png"@,
        Format::Jpeg { .. } => "jpg"@,
    }
}

/// The parameters that select a format.
pub open spec fn format_params(f: Format) -> Seq<(Seq<char>, Seq<char>)> {
    match f {
        Format::Png => seq![("fm"@, "png"@)],
        Format::Jpeg { quality } => seq![("fm"@, "jpg"@), ("q"@, decimal(quality as nat))],
    }
}

/// The parameters that select a resolution: none for the photo as uploaded.
pub open spec fn resolution_params(r: Resolution) -> Seq<(Seq<char>, Seq<char>)> {
    match r {
        Resolution::Raw => seq![],
        Resolution::Custom { width, height } => seq![
            ("w"@, decimal(width as nat)),
            ("h"@, decimal(height as nat)),
            ("fit"@, "min"@),
        ],
    }
}

/// The parameters of a download request.
pub open spec fn download_params(d: Download) -> Seq<(Seq<char>, Seq<char>)> {
    format_params(d.format) + resolution_params(d.resolution)
}

impl Format {
    /// The extension of files in this format.
    pub fn extension(&self) -> (r: &'static str)
        ensures
            r@ == extension_of(*self),
    {
        match self {
            Format::Png => "png",
            Format::Jpeg { .. } => "jpg",
        }
    }
}

impl Download {
    /// Lossless images that cover a screen of the given size.
    pub fn for_screen(width: u32, height: u32) -> (r: Download)
        ensures
            r.format == Format::Png,
            r.resolution == (Resolution::Custom { width, height }),
    {
        Download { format: Format::Png, resolution: Resolution::Custom { width, height } }
    }

    /// The format's parameters, then the resolution's.
    pub fn to_query_params(&self) -> (r: Vec<QueryParam>)
        ensures
            params_view(r@) == download_params(*self),
    {
        let mut r: Vec<QueryParam> = Vec::new();
        match self.format {
            Format::Png => {
                r.push(("fm", String::from_str("png")));
            },
            Format::Jpeg { quality } => {
                r.push(("fm", String::from_str("jpg")));
                r.push(("q", to_decimal(quality as u64)));
            },
        }
        match self.resolution {
            Resolution::Raw => {},
            Resolution::Custom { width, height } => {
                r.push(("w", to_decimal(width as u64)));
                r.push(("h", to_decimal(height as u64)));
                r.push(("fit", String::from_str("min")));
            },
        }
        assert(params_view(r@) =~= download_params(*self));
        r
    }
}

} // verus!
