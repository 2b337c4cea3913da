//! Choice of the transport that carries the kernel's channel to the host.
use vstd::prelude::*;

verus! {

/// The kinds of transport, in the order of preference used when the boot
/// arguments name none.
#[derive(Clone, Copy, Debug, PartialEq, Eq, Structural)]
pub enum ChannelType {
    VirtioConsole,
    VirtioVsock,
    Serial,
    SimpleIo,
}

/// Why no channel could be chosen.
#[derive(Clone, Copy, Debug, PartialEq, Eq, Structural)]
pub enum ChannelError {
    /// The boot arguments name no kind of transport.
    UnknownKind,
    /// The boot arguments name a kind that this build does not include.
    NotCompiledIn(ChannelType),
    /// This build includes no transport at all.
    NoneCompiledIn,
    /// The virtio console needs the platform device tables, which were not
    /// found.
    AcpiUnavailable,
}

/// The name of each kind in the boot arguments.
pub open spec fn kind_name(k: ChannelType) -> Seq<char> {
    match k {
        ChannelType::VirtioConsole => seq![
            'v', 'i', 'r', 't', 'i', 'o', '_', 'c', 'o', 'n', 's', 'o', 'l', 'e'
        ],
        ChannelType::VirtioVsock => seq!['v', 'i', 'r', 't', 'i', 'o', '_', 'v', 's', 'o', 'c', 'k'],
        ChannelType::Serial => seq!['s', 'e', 'r', 'i', 'a', 'l'],
        ChannelType::SimpleIo => seq!['s', 'i', 'm', 'p', 'l', 'e', '_', 'i', 'o'],
    }
}

/// A character code with ASCII upper case letters made lower case.
pub open spec fn lower_code(c: char) -> u32 {
    if 65 <= (c as u32) <= 90 {
        (c as u32 + 32) as u32
    } else {
        c as u32
    }
}

/// Whether two strings are equal when ASCII case is ignored.
pub open spec fn same_ignoring_case(a: Seq<char>, b: Seq<char>) -> bool {
    a.len() == b.len() && forall|i: int| 0 <= i < a.len() ==> #[trigger] lower_code(a[i]) == lower_code(b[i])
}

/// The kind that a name in the boot arguments stands for, in any ASCII case.
pub open spec fn parse_kind(s: Seq<char>) -> Option<ChannelType> {
    if same_ignoring_case(s, kind_name(ChannelType::VirtioConsole)) {
        Some(ChannelType::VirtioConsole)
    } else if same_ignoring_case(s, kind_name(ChannelType::VirtioVsock)) {
        Some(ChannelType::VirtioVsock)
    } else if same_ignoring_case(s, kind_name(ChannelType::Serial)) {
        Some(ChannelType::Serial)
    } else if same_ignoring_case(s, kind_name(ChannelType::SimpleIo)) {
        Some(ChannelType::SimpleIo)
    } else {
        None
    }
}

/// The order of preference among the kinds.
pub open spec fn priority() -> Seq<ChannelType> {
    seq![ChannelType::VirtioConsole, ChannelType::VirtioVsock, ChannelType::Serial, ChannelType::SimpleIo]
}

/// The transports that this build includes.
#[derive(Clone, Copy, Debug, PartialEq, Eq, Structural)]
pub struct ChannelFeatures {
    pub virtio_console: bool,
    pub vsock: bool,
    pub serial: bool,
    pub simple_io: bool,
}

impl ChannelFeatures {
    pub open spec fn spec_includes(self, k: ChannelType) -> bool {
        match k {
            ChannelType::VirtioConsole => self.virtio_console,
            ChannelType::VirtioVsock => self.vsock,
            ChannelType::Serial => self.serial,
            ChannelType::SimpleIo => self.simple_io,
        }
    }

    /// Whether the build includes kind `k`.
    pub fn includes(&self, k: ChannelType) -> (r: bool)
        ensures
            r == self.spec_includes(k),
    {
        match k {
            ChannelType::VirtioConsole => self.virtio_console,
            ChannelType::VirtioVsock => self.vsock,
            ChannelType::Serial => self.serial,
            ChannelType::SimpleIo => self.simple_io,
        }
    }
}

/// The first kind, in order of preference, that the build includes.
pub open spec fn first_included(f: ChannelFeatures) -> Option<ChannelType> {
    first_included_from(f, 0)
}

pub open spec fn first_included_from(f: ChannelFeatures, i: int) -> Option<ChannelType>
    decreases 4 - i,
{
    if i < 0 || i >= 4 {
        None
    } else if f.spec_includes(priority()[i]) {
        Some(priority()[i])
    } else {
        first_included_from(f, i + 1)
    }
}

/// The channel kind chosen for a build with transports `f`, the requested
/// name `requested` (if the boot arguments give one), and whether the
/// platform device tables were found.
pub open spec fn selection(f: ChannelFeatures, requested: Option<Seq<char>>, acpi_available: bool) -> Result<
    ChannelType,
    ChannelError,
> {
    let chosen = match requested {
        Some(s) => match parse_kind(s) {
            Some(k) => if f.spec_includes(k) {
                Ok(k)
            } else {
                Err(ChannelError::NotCompiledIn(k))
            },
            None => Err(ChannelError::UnknownKind),
        },
        None => match first_included(f) {
            Some(k) => Ok(k),
            None => Err(ChannelError::NoneCompiledIn),
        },
    };
    match chosen {
        Ok(k) => if k == ChannelType::VirtioConsole && !acpi_available {
            Err(ChannelError::AcpiUnavailable)
        } else {
            Ok(k)
        },
        Err(e) => Err(e),
    }
}

pub open spec fn opt_view(s: Option<&str>) -> Option<Seq<char>> {
    match s {
        Some(t) => Some(t@),
        None => None,
    }
}

impl ChannelType {
    /// The name of the kind in the boot arguments.
    pub fn name(&self) -> (r: &'static str)
        ensures
            r@ == kind_name(*self),
    {
        match self {
            ChannelType::VirtioConsole => {
                proof {
                    reveal_strlit("virtio_console");
                }
                let s = "virtio_console";
                assert(s@ =~= kind_name(*self));
                s
            },
            ChannelType::VirtioVsock => {
                proof {
                    reveal_strlit("virtio_vsock");
                }
                let s = "virtio_vsock";
                assert(s@ =~= kind_name(*self));
                s
            },
            ChannelType::Serial => {
                proof {
                    reveal_strlit("serial");
                }
                let s = "serial";
                assert(s@ =~= kind_name(*self));
                s
            },
            ChannelType::SimpleIo => {
                proof {
                    reveal_strlit("simple_io");
                }
                let s = "simple_io";
                assert(s@ =~= kind_name(*self));
                s
            },
        }
    }

    /// The kind that `s` names, in any ASCII case.
    pub fn parse(s: &str) -> (r: Option<ChannelType>)
        ensures
            r == parse_kind(s@),
    {
        if eq_ignore_case(s, ChannelType::VirtioConsole.name()) {
            Some(ChannelType::VirtioConsole)
        } else if eq_ignore_case(s, ChannelType::VirtioVsock.name()) {
            Some(ChannelType::VirtioVsock)
        } else if eq_ignore_case(s, ChannelType::Serial.name()) {
            Some(ChannelType::Serial)
        } else if eq_ignore_case(s, ChannelType::SimpleIo.name()) {
            Some(ChannelType::SimpleIo)
        } else {
            None
        }
    }
}

fn lower_code_exec(c: char) -> (r: u32)
    ensures
        r == lower_code(c),
{
    let x = c as u32;
    if 65 <= x && x <= 90 {
        x + 32
    } else {
        x
    }
}

/// Whether `a` and `b` are equal when ASCII case is ignored.
pub fn eq_ignore_case(a: &str, b: &str) -> (r: bool)
    ensures
        r == same_ignoring_case(a@, b@),
{
    let n = a.unicode_len();
    if n != b.unicode_len() {
        return false;
    }
    let mut i: usize = 0;
    while i < n
        invariant
            n == a@.len(),
            n == b@.len(),
            i <= n,
            forall|j: int| 0 <= j < i ==> #[trigger] lower_code(a@[j]) == lower_code(b@[j]),
        decreases n - i,
    {
        if lower_code_exec(a.get_char(i)) != lower_code_exec(b.get_char(i)) {
            return false;
        }
        i = i + 1;
    }
    true
}

/// The kinds in order of preference.
pub fn priority_order() -> (r: Vec<ChannelType>)
    ensures
        r@ == priority(),
{
    let r = vec![ChannelType::VirtioConsole, ChannelType::VirtioVsock, ChannelType::Serial, ChannelType::SimpleIo];
    assert(r@ =~= priority());
    r
}

/// The first kind, in order of preference, that the build includes.
pub fn default_channel(features: &ChannelFeatures) -> (r: Option<ChannelType>)
    ensures
        r == first_included(*features),
{
    let order = priority_order();
    let mut i: usize = 0;
    while i < order.len()
        invariant
            order@ == priority(),
            i <= 4,
            first_included(*features) == first_included_from(*features, i as int),
        decreases 4 - i,
    {
        let k = order[i];
        if features.includes(k) {
            return Some(k);
        }
        i = i + 1;
    }
    None
}

/// Chooses the channel kind: the one the boot arguments name (in any ASCII
/// case) if they name one, else the first that the build includes, in order
/// of preference. A name that is no kind, a kind that the build leaves out,
/// a build without transports, and the virtio console without platform device
/// tables are errors.
pub fn select_channel(features: &ChannelFeatures, requested: Option<&str>, acpi_available: bool) -> (r: Result<
    ChannelType,
    ChannelError,
>)
    ensures
        r == selection(*features, opt_view(requested), acpi_available),
{
    let chosen = match requested {
        Some(s) => match ChannelType::parse(s) {
            Some(k) => if features.includes(k) {
                Ok(k)
            } else {
                Err(ChannelError::NotCompiledIn(k))
            },
            None => Err(ChannelError::UnknownKind),
        },
        None => match default_channel(features) {
            Some(k) => Ok(k),
            None => Err(ChannelError::NoneCompiledIn),
        },
    };
    match chosen {
        Ok(k) => if k == ChannelType::VirtioConsole && !acpi_available {
            Err(ChannelError::AcpiUnavailable)
        } else {
            Ok(k)
        },
        Err(e) => Err(e),
    }
}

/// Selection depends on the requested name only up to ASCII case: two names
/// that differ only in case, or two absent names, give the same kind or the
/// same error.
pub proof fn lemma_selection_ignores_case(
    f: ChannelFeatures,
    a: Option<Seq<char>>,
    b: Option<Seq<char>>,
    acpi_available: bool,
)
    requires
        a is None <==> b is None,
        a matches Some(x) ==> (b matches Some(y) ==> same_ignoring_case(x, y)),
    ensures
        selection(f, a, acpi_available) == selection(f, b, acpi_available),
{
    if let Some(x) = a {
        if let Some(y) = b {
            assert forall|n: Seq<char>| same_ignoring_case(x, n) <==> same_ignoring_case(y, n) by {
                if same_ignoring_case(x, n) {
                    assert forall|i: int| 0 <= i < y.len() implies #[trigger] lower_code(y[i])
                        == lower_code(n[i]) by {
                        assert(lower_code(x[i]) == lower_code(y[i]));
                    }
                }
                if same_ignoring_case(y, n) {
                    assert forall|i: int| 0 <= i < x.len() implies #[trigger] lower_code(x[i])
                        == lower_code(n[i]) by {
                        assert(lower_code(x[i]) == lower_code(y[i]));
                    }
                }
            }
        }
    }
}

/// A requested kind that the build includes is chosen, whatever the order of
/// preference (the virtio console also needs the platform device tables).
pub proof fn lemma_requested_kind_chosen(f: ChannelFeatures, k: ChannelType, acpi_available: bool)
    requires
        f.spec_includes(k),
        k == ChannelType::VirtioConsole ==> acpi_available,
    ensures
        selection(f, Some(kind_name(k)), acpi_available) == Ok::<ChannelType, ChannelError>(k),
{
    let n = kind_name(k);
    assert(same_ignoring_case(n, n));
    let vc = kind_name(ChannelType::VirtioConsole);
    let vv = kind_name(ChannelType::VirtioVsock);
    let se = kind_name(ChannelType::Serial);
    let si = kind_name(ChannelType::SimpleIo);
    assert(lower_code(vc[0]) != lower_code(se[0]));
    assert(lower_code(vc[0]) != lower_code(si[0]));
    assert(lower_code(vv[0]) != lower_code(se[0]));
    assert(lower_code(vv[0]) != lower_code(si[0]));
    assert(lower_code(vc[7]) != lower_code(vv[7]));
    assert(lower_code(se[1]) != lower_code(si[1]));
}

/// With no name requested, the first kind in order of preference that the
/// build includes is chosen.
pub proof fn lemma_default_is_first_included(f: ChannelFeatures, acpi_available: bool)
    requires
        first_included(f) is Some,
        first_included(f) == Some(ChannelType::VirtioConsole) ==> acpi_available,
    ensures
        selection(f, None, acpi_available) == Ok::<ChannelType, ChannelError>(
            first_included(f)->Some_0,
        ),
        f.spec_includes(first_included(f)->Some_0),
{
    reveal_with_fuel(first_included_from, 5);
}

} // verus!
