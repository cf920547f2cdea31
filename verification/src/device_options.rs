//! Route option models for device product verbs: a closed set of
//! command-line tokens that resolve to open route symbols.
use vstd::prelude::*;
use vstd::string::*;

use crate::device_host::RouteArg;
use crate::symbol::{qualified_symbol, Symbol};
use crate::text::{concat2, owned, str_eq};

verus! {

broadcast use vstd::string::group_string_axioms;

/// The glasses route tokens, in display order.
pub open spec fn glasses_options() -> Seq<Seq<char>> {
    seq![
        "direct-linux"@,
        "android-usb"@,
        "neckband-local"@,
        "neckband-relay"@,
        "mobile-dock-display"@,
        "ble-direct"@,
        "web-bluetooth"@,
        "phone-relay"@,
        "controller-hid"@,
    ]
}

/// Views of static strings.
pub open spec fn str_views(v: Seq<&'static str>) -> Seq<Seq<char>> {
    v.map_values(|s: &'static str| s@)
}

/// Closed command-line option set that resolves to open route symbols.
#[derive(Clone, Copy, Debug, PartialEq, Eq, Structural)]
pub enum DeviceRouteOptionModel {
    /// Routes of glasses devices.
    Glasses,
}

/// Error returned when a device route option is not in the selected model.
#[derive(Clone, Debug, PartialEq, Eq)]
pub struct DeviceRouteOptionError {
    value: String,
    expected: Vec<&'static str>,
}

impl DeviceRouteOptionModel {
    /// The accepted tokens of a model.
    pub open spec fn options_view(self) -> Seq<Seq<char>> {
        match self {
            DeviceRouteOptionModel::Glasses => glasses_options(),
        }
    }

    /// Returns the glasses route option model.
    pub fn glasses() -> (r: Self)
        ensures
            r.options_view() == glasses_options(),
    {
        DeviceRouteOptionModel::Glasses
    }

    /// Returns the accepted option tokens in display order.
    pub fn options(self) -> (r: Vec<&'static str>)
        ensures
            str_views(r@) == self.options_view(),
    {
        let r = vec![
            "direct-linux",
            "android-usb",
            "neckband-local",
            "neckband-relay",
            "mobile-dock-display",
            "ble-direct",
            "web-bluetooth",
            "phone-relay",
            "controller-hid",
        ];
        assert(str_views(r@) =~= glasses_options());
        r
    }

    /// Parses one option into the route argument consumed by device
    /// composition: a known token `T` becomes the route `device/route/T`.
    pub fn parse(self, value: &str) -> (r: Result<RouteArg, DeviceRouteOptionError>)
        ensures
            self.options_view().contains(value@) ==> (r matches Ok(route) && route.symbol_view()
                == qualified_symbol("device/route"@, value@)),
            !self.options_view().contains(value@) ==> (r matches Err(e) && e.value_view() == value@
                && str_views(e.expected_view()) == self.options_view()),
    {
        let options = self.options();
        let mut i: usize = 0;
        while i < options.len()
            invariant
                str_views(options@) == self.options_view(),
                i <= options@.len(),
                forall|j: int| 0 <= j < i ==> #[trigger] options@[j]@ != value@,
            decreases options@.len() - i,
        {
            if str_eq(options[i], value) {
                proof {
                    assert(str_views(options@)[i as int] == value@);
                }
                return Ok(RouteArg::new(Symbol::qualified(owned("device/route"), owned(value))));
            }
            i = i + 1;
        }
        proof {
            if self.options_view().contains(value@) {
                let j = choose|j: int|
                    0 <= j < self.options_view().len() && self.options_view()[j] == value@;
                assert(options@[j]@ == value@);
            }
        }
        Err(DeviceRouteOptionError { value: owned(value), expected: options })
    }
}

/// `a, b, c`.
pub open spec fn joined(items: Seq<Seq<char>>) -> Seq<char>
    decreases items.len(),
{
    if items.len() == 0 {
        Seq::empty()
    } else if items.len() == 1 {
        items[0]
    } else {
        joined(items.drop_last()) + ", "@ + items.last()
    }
}

impl DeviceRouteOptionError {
    /// The rejected token.
    pub closed spec fn value_view(&self) -> Seq<char> {
        self.value@
    }

    /// The accepted tokens.
    pub closed spec fn expected_view(&self) -> Seq<&'static str> {
        self.expected@
    }

    /// Returns the rejected option token.
    pub fn value(&self) -> (r: &str)
        ensures
            r@ == self.value_view(),
    {
        self.value.as_str()
    }

    /// Returns the accepted option tokens.
    pub fn expected(&self) -> (r: Vec<&'static str>)
        ensures
            r@ == self.expected_view(),
    {
        let mut r: Vec<&'static str> = Vec::new();
        let mut i: usize = 0;
        while i < self.expected.len()
            invariant
                i <= self.expected@.len(),
                r@ == self.expected@.take(i as int),
            decreases self.expected@.len() - i,
        {
            r.push(self.expected[i]);
            i = i + 1;
            assert(r@ =~= self.expected@.take(i as int));
        }
        assert(r@ =~= self.expected@);
        r
    }

    /// The error's message:
    /// `unsupported device route 'V'; expected one of: A, B, ...`.
    pub fn to_string(&self) -> (r: String)
        ensures
            r@ == "unsupported device route '"@ + self.value_view() + "'; expected one of: "@ + joined(
                str_views(self.expected_view()),
            ),
    {
        let mut r = concat2("unsupported device route '", self.value.as_str());
        r.append("'; expected one of: ");
        let ghost head = r@;
        let mut i: usize = 0;
        while i < self.expected.len()
            invariant
                i <= self.expected@.len(),
                r@ == head + joined(str_views(self.expected@.take(i as int))),
            decreases self.expected@.len() - i,
        {
            if i > 0 {
                r.append(", ");
            }
            r.append(self.expected[i]);
            proof {
                let t = str_views(self.expected@.take(i + 1));
                assert(t.drop_last() =~= str_views(self.expected@.take(i as int)));
                assert(t.last() == self.expected@[i as int]@);
                if i == 0 {
                    assert(str_views(self.expected@.take(0)) =~= Seq::<Seq<char>>::empty());
                }
            }
            i = i + 1;
        }
        assert(self.expected@.take(self.expected@.len() as int) =~= self.expected@);
        r
    }
}

} // verus!
