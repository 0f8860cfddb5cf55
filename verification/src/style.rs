use vstd::prelude::*;
use vstd::string::StringExecFns;

verus! {

/// The character for one decimal digit.
pub open spec fn digit_char(d: nat) -> char {
    if d == 0 {
        '0'
    } else if d == 1 {
        '1'
    } else if d == 2 {
        '2'
    } else if d == 3 {
        '3'
    } else if d == 4 {
        '4'
    } else if d == 5 {
        '5'
    } else if d == 6 {
        '6'
    } else if d == 7 {
        '7'
    } else if d == 8 {
        '8'
    } else {
        '9'
    }
}

/// The decimal digits of `n`, most significant first.
pub open spec fn decimal_digits(n: nat) -> Seq<char>
    decreases n,
{
    if n < 10 {
        seq![digit_char(n)]
    } else {
        decimal_digits(n / 10).push(digit_char(n % 10))
    }
}

fn digit_str(d: u32) -> (r: &'static str)
    requires
        d < 10,
    ensures
        r@ == seq![digit_char(d as nat)],
{
    if d == 0 {
        proof {
            reveal_strlit("0");
            assert("0"@ =~= seq!['0']);
        }
        "0"
    } else if d == 1 {
        proof {
            reveal_strlit("1");
            assert("1"@ =~= seq!['1']);
        }
        "1"
    } else if d == 2 {
        proof {
            reveal_strlit("2");
            assert("2"@ =~= seq!['2']);
        }
        "2"
    } else if d == 3 {
        proof {
            reveal_strlit("3");
            assert("3"@ =~= seq!['3']);
        }
        "3"
    } else if d == 4 {
        proof {
            reveal_strlit("4");
            assert("4"@ =~= seq!['4']);
        }
        "4"
    } else if d == 5 {
        proof {
            reveal_strlit("5");
            assert("5"@ =~= seq!['5']);
        }
        "5"
    } else if d == 6 {
        proof {
            reveal_strlit("6");
            assert("6"@ =~= seq!['6']);
        }
        "6"
    } else if d == 7 {
        proof {
            reveal_strlit("7");
            assert("7"@ =~= seq!['7']);
        }
        "7"
    } else if d == 8 {
        proof {
            reveal_strlit("8");
            assert("8"@ =~= seq!['8']);
        }
        "8"
    } else {
        proof {
            reveal_strlit("9");
            assert("9"@ =~= seq!['9']);
        }
        "9"
    }
}

fn u32_to_decimal(n: u32) -> (r: String)
    ensures
        r@ == decimal_digits(n as nat),
    decreases n,
{
    if n < 10 {
        let mut s = String::new();
        s.append(digit_str(n));
        proof {
            assert(s@ =~= decimal_digits(n as nat));
        }
        s
    } else {
        let mut s = u32_to_decimal(n / 10);
        s.append(digit_str(n % 10));
        proof {
            assert(s@ =~= decimal_digits(n as nat));
        }
        s
    }
}

/// The CSS length for a whole number of pixels: the decimal digits of `px`
/// followed by the unit.
pub fn px(pixels: u32) -> (r: String)
    ensures
        r@ == decimal_digits(pixels as nat) + "px"@,
{
    let mut value = u32_to_decimal(pixels);
    value.append("px");
    value
}

/// The name/value pairs a property list stands for, as character sequences.
pub open spec fn props_view(props: Seq<(String, String)>) -> Seq<(Seq<char>, Seq<char>)> {
    props.map(|i: int, p: (String, String)| (p.0@, p.1@))
}

/// A target for styling: anything that takes named style properties one at a
/// time, such as a raw element of the DOM layer above.
pub trait RawEl: Sized {
    /// The properties applied so far, in application order.
    spec fn styles(&self) -> Seq<(Seq<char>, Seq<char>)>;

    /// Apply one named style property.
    fn style(self, name: &str, value: &str) -> (r: Self)
        ensures
            r.styles() == self.styles().push((name@, value@)),
    ;
}

/// A CSS-property builder: it stands for a list of name/value properties and
/// can write them onto any styling target.
pub trait Style: Sized {
    /// The properties this style stands for, in the order they are written.
    spec fn props(&self) -> Seq<(Seq<char>, Seq<char>)>;

    /// A style with no properties set.
    fn new() -> (r: Self)
        ensures
            r.props() == Seq::<(Seq<char>, Seq<char>)>::empty(),
    ;

    /// The concrete property list.
    fn into_css_props(self) -> (r: Vec<(String, String)>)
        ensures
            props_view(r@) == self.props(),
    ;

    /// Write every property onto `raw_el`, in order.
    fn update_raw_el_style<T: RawEl>(self, raw_el: T) -> (r: T)
        ensures
            r.styles() == raw_el.styles() + self.props(),
    {
        let ghost target = self.props();
        let ghost initial = raw_el.styles();
        let props = self.into_css_props();
        let mut el = raw_el;
        let n: usize = props.len();
        let mut i: usize = 0;
        proof {
            assert(initial + target.subrange(0, 0) =~= initial);
        }
        while i < n
            invariant
                n == props@.len(),
                i <= n,
                props_view(props@) == target,
                el.styles() == initial + target.subrange(0, i as int),
            decreases n - i,
        {
            let pair = &props[i];
            el = el.style(pair.0.as_str(), pair.1.as_str());
            proof {
                assert(target[i as int] == (props@[i as int].0@, props@[i as int].1@));
                assert(el.styles() =~= initial + target.subrange(0, i as int + 1));
            }
            i += 1;
        }
        proof {
            assert(target.subrange(0, n as int) =~= target);
        }
        el
    }
}

/// A plain styling target: records every applied property, in order, for the
/// caller to inspect or write out.
pub struct InlineStyles {
    entries: Vec<(String, String)>,
}

impl InlineStyles {
    /// A target with nothing applied yet.
    pub fn new() -> (r: InlineStyles)
        ensures
            r.styles() == Seq::<(Seq<char>, Seq<char>)>::empty(),
    {
        let r = InlineStyles { entries: Vec::new() };
        proof {
            assert(r.styles() =~= Seq::<(Seq<char>, Seq<char>)>::empty());
        }
        r
    }

    /// The recorded properties.
    pub fn entries(&self) -> (r: &Vec<(String, String)>)
        ensures
            props_view(r@) == self.styles(),
    {
        &self.entries
    }
}

impl RawEl for InlineStyles {
    closed spec fn styles(&self) -> Seq<(Seq<char>, Seq<char>)> {
        props_view(self.entries@)
    }

    fn style(self, name: &str, value: &str) -> (r: Self) {
        let mut entries = self.entries;
        entries.push((<String as StringExecFns>::from_str(name), <String as StringExecFns>::from_str(value)));
        let r = InlineStyles { entries };
        proof {
            assert(r.styles() =~= self.styles().push((name@, value@)));
        }
        r
    }
}

/// Padding on every side of an element, as a whole number of pixels.
pub struct Padding {
    all: Option<u32>,
}

impl Padding {
    /// Pad every side by `value` pixels.
    pub fn all(self, value: u32) -> (r: Padding)
        ensures
            r.props() == seq![("padding"@, decimal_digits(value as nat) + "px"@)],
    {
        Padding { all: Some(value) }
    }
}

impl Style for Padding {
    closed spec fn props(&self) -> Seq<(Seq<char>, Seq<char>)> {
        match self.all {
            Some(v) => seq![("padding"@, decimal_digits(v as nat) + "px"@)],
            None => Seq::empty(),
        }
    }

    fn new() -> (r: Self) {
        Padding { all: None }
    }

    fn into_css_props(self) -> (r: Vec<(String, String)>) {
        match self.all {
            None => {
                let r: Vec<(String, String)> = Vec::new();
                proof {
                    assert(props_view(r@) =~= self.props());
                }
                r
            },
            Some(v) => {
                let mut r: Vec<(String, String)> = Vec::new();
                r.push((<String as StringExecFns>::from_str("padding"), px(v)));
                proof {
                    assert(props_view(r@) =~= self.props());
                }
                r
            },
        }
    }
}

} // verus!
