//! The flags that the command line sets, and how its arguments are read.

use vstd::prelude::*;
use crate::text::{chars_of, lowercase, string_of, strings};

verus! {

/// A set of flags, one bit each. The constants of the type are the bits of
/// the single flags.
#[derive(Clone, Copy, PartialEq, Eq, Structural, Debug)]
pub struct Flags {
    pub bits: u32,
}

impl Flags {
    pub const INIT: u32 = 0x0;

    pub const VERBOSE: u32 = 0x1;

    pub const QUIET: u32 = 0x2;

    pub const GENERATE_C: u32 = 0x4;

    pub const GENERATE_ASM: u32 = 0x8;

    pub const GENERATE_OBJ: u32 = 0x10;

    pub const GENERATE_BIN: u32 = 0x20;

    pub const CUSTOM_CC: u32 = 0x40;

    pub const CUSTOM_OUTFILE: u32 = 0x80;

    pub const BIT16: u32 = 0x100;

    pub const BIT32: u32 = 0x200;

    pub const BIT64: u32 = 0x400;

    /// Whether the set holds a flag of `f`.
    pub fn check(self, f: Self) -> (b: bool)
        ensures
            b == (self.bits & f.bits != 0),
    {
        self.bits & f.bits != 0
    }

    /// Puts the flags of `other` into the set where `value` holds, and takes
    /// them out of it where it does not.
    pub fn set(&mut self, other: Flags, value: bool)
        ensures
            final(self).bits == if value {
                old(self).bits | other.bits
            } else {
                old(self).bits & !other.bits
            },
    {
        if value {
            self.bits = self.bits | other.bits;
        } else {
            self.bits = self.bits & !other.bits;
        }
    }
}

/// What reading the arguments found amiss.
pub enum Notice {
    /// The option that names the C compiler is the last argument: no
    /// compiler follows it.
    MissingCc,
    /// An option that is not known, as it was written.
    InvalidOption(std::string::String),
}

/// What a notice is to the contracts.
pub enum NoticeView {
    MissingCc,
    InvalidOption(Seq<char>),
}

impl View for Notice {
    type V = NoticeView;

    open spec fn view(&self) -> NoticeView {
        match self {
            Notice::MissingCc => NoticeView::MissingCc,
            Notice::InvalidOption(a) => NoticeView::InvalidOption(a@),
        }
    }
}

/// The views of the notices of `v`, in order.
pub open spec fn notice_views(v: Seq<Notice>) -> Seq<NoticeView> {
    v.map_values(|n: Notice| n@)
}

/// What the arguments read so far have set.
pub struct Parsed {
    pub flags: u32,
    pub custom_cc: Seq<char>,
    pub source: Seq<Seq<char>>,
    pub notices: Seq<NoticeView>,
}

/// The name of the option that `a` writes, where `a` has `-` as its second
/// character: what follows the first two characters, in lower case. Only an
/// argument whose first character is a single byte names an option.
pub open spec fn option_name(a: Seq<char>) -> Option<Seq<char>> {
    if '\u{80}' > a[0] {
        Some(lowercase(a.skip(2)))
    } else {
        None
    }
}

/// What an option sets, by its name in lower case: `verbose` sets the
/// verbose flag and clears the quiet one; `cc` sets the flag of a compiler
/// of one's own and takes the next argument as that compiler, which is
/// amiss where there is none; every other name, and an option without a
/// name, is amiss, and is noticed as it was written.
pub open spec fn option_effect(
    name: Option<Seq<char>>,
    written: Seq<char>,
    next: Option<Seq<char>>,
    st: Parsed,
) -> Parsed {
    if name == Some("verbose"@) {
        Parsed {
            flags: (st.flags | Flags::VERBOSE) & !Flags::QUIET,
            custom_cc: st.custom_cc,
            source: st.source,
            notices: st.notices,
        }
    } else if name == Some("cc"@) {
        match next {
            Some(cc) => Parsed {
                flags: st.flags | Flags::CUSTOM_CC,
                custom_cc: cc,
                source: st.source,
                notices: st.notices,
            },
            None => Parsed {
                flags: st.flags | Flags::CUSTOM_CC,
                custom_cc: st.custom_cc,
                source: st.source,
                notices: st.notices.push(NoticeView::MissingCc),
            },
        }
    } else {
        Parsed {
            flags: st.flags,
            custom_cc: st.custom_cc,
            source: st.source,
            notices: st.notices.push(NoticeView::InvalidOption(written)),
        }
    }
}

/// The argument behind the one at `i`, if there is one.
pub open spec fn next_arg(args: Seq<Seq<char>>, i: int) -> Option<Seq<char>> {
    if i + 1 < args.len() {
        Some(args[i + 1])
    } else {
        None
    }
}

/// What the argument at `i` sets.
///
/// An argument of fewer than two characters is passed over. One whose
/// second character is not `-` is a source file. Every other is an option,
/// and sets what `option_effect` says of its name.
pub open spec fn parse_arg(args: Seq<Seq<char>>, i: int, st: Parsed) -> Parsed {
    let a = args[i];
    if a.len() < 2 {
        st
    } else if a[1] != '-' {
        Parsed {
            flags: st.flags,
            custom_cc: st.custom_cc,
            source: st.source.push(a),
            notices: st.notices,
        }
    } else {
        option_effect(option_name(a), a, next_arg(args, i), st)
    }
}

/// What the first `n` arguments set, one after the other.
pub open spec fn parse_args(args: Seq<Seq<char>>, n: nat, st: Parsed) -> Parsed
    decreases n,
{
    if n == 0 {
        st
    } else {
        parse_arg(args, n - 1, parse_args(args, (n - 1) as nat, st))
    }
}

/// The text of a string that may be missing.
pub open spec fn text_of(s: Option<&std::string::String>) -> Option<Seq<char>> {
    match s {
        Some(s) => Some(s@),
        None => None,
    }
}

/// Sets what an option asks for. `name` is the name of the option in lower
/// case, or `None` for an option without a name; `written` is the argument
/// as it was written, and `next` the argument behind it, if there is one.
pub fn apply_option(
    name: Option<&std::string::String>,
    written: &std::string::String,
    next: Option<&std::string::String>,
    custom_cc: &mut std::string::String,
    flag: &mut Flags,
    notices: &mut Vec<Notice>,
)
    ensures
        ({
            let st = option_effect(
                text_of(name),
                written@,
                text_of(next),
                Parsed {
                    flags: old(flag).bits,
                    custom_cc: old(custom_cc)@,
                    source: Seq::empty(),
                    notices: notice_views(old(notices)@),
                },
            );
            &&& final(flag).bits == st.flags
            &&& final(custom_cc)@ == st.custom_cc
            &&& notice_views(final(notices)@) == st.notices
        }),
{
    let ghost noticed = notices@;
    let verbose = match name {
        Some(n) => *n == "verbose".to_owned(),
        None => false,
    };
    let cc = match name {
        Some(n) => *n == "cc".to_owned(),
        None => false,
    };
    assert(verbose == (text_of(name) == Some("verbose"@)));
    assert(cc == (text_of(name) == Some("cc"@)));
    if verbose {
        flag.set(Flags { bits: Flags::VERBOSE }, true);
        flag.set(Flags { bits: Flags::QUIET }, false);
    } else if cc {
        flag.set(Flags { bits: Flags::CUSTOM_CC }, true);
        match next {
            Some(n) => {
                *custom_cc = n.clone();
            },
            None => {
                notices.push(Notice::MissingCc);
                assert(notice_views(notices@) =~= notice_views(noticed).push(
                    NoticeView::MissingCc,
                ));
            },
        }
    } else {
        notices.push(Notice::InvalidOption(written.clone()));
        assert(notice_views(notices@) =~= notice_views(noticed).push(
            NoticeView::InvalidOption(written@),
        ));
    }
}

/// Reads the arguments of the command line, the name of the program left
/// out. The flags start from none; the source files are added to those
/// already there; the compiler stays what it was unless an option names
/// another; the output file stays what it was. What was amiss is returned,
/// in the order of the arguments.
pub fn parse(
    args: &Vec<std::string::String>,
    custom_cc: &mut std::string::String,
    custom_ofile: &mut std::string::String,
    source: &mut Vec<std::string::String>,
    flag: &mut Flags,
) -> (notices: Vec<Notice>)
    ensures
        ({
            let st = parse_args(
                strings(args@),
                args.len() as nat,
                Parsed {
                    flags: Flags::INIT,
                    custom_cc: old(custom_cc)@,
                    source: strings(old(source)@),
                    notices: Seq::empty(),
                },
            );
            &&& final(flag).bits == st.flags
            &&& final(custom_cc)@ == st.custom_cc
            &&& strings(final(source)@) == st.source
            &&& notice_views(notices@) == st.notices
        }),
        final(custom_ofile)@ == old(custom_ofile)@,
{
    let ghost argv = strings(args@);
    let ghost start = Parsed {
        flags: Flags::INIT,
        custom_cc: custom_cc@,
        source: strings(source@),
        notices: Seq::empty(),
    };
    let mut notices: Vec<Notice> = Vec::new();
    flag.bits = Flags::INIT;
    assert(notice_views(notices@) =~= Seq::<NoticeView>::empty());
    let mut i: usize = 0;
    while i < args.len()
        invariant
            i <= args.len(),
            argv == strings(args@),
            flag.bits == parse_args(argv, i as nat, start).flags,
            custom_cc@ == parse_args(argv, i as nat, start).custom_cc,
            strings(source@) == parse_args(argv, i as nat, start).source,
            notice_views(notices@) == parse_args(argv, i as nat, start).notices,
        decreases args.len() - i,
    {
        let ghost before = parse_args(argv, i as nat, start);
        let ghost sources = source@;
        let a = &args[i];
        assert(argv[i as int] == a@);
        let chars = chars_of(a.as_str());
        if chars.len() < 2 {
        } else if chars[1] != '-' {
            source.push(a.clone());
            assert(strings(source@) =~= strings(sources).push(a@));
        } else {
            let name: Option<std::string::String> = if '\u{80}' > chars[0] {
                let written = string_of(&chars, 2, chars.len());
                assert(written@ =~= a@.skip(2));
                Some(written.as_str().to_lowercase())
            } else {
                None
            };
            let next: Option<&std::string::String> = if i + 1 < args.len() {
                assert(argv[i + 1] == args@[i + 1]@);
                Some(&args[i + 1])
            } else {
                None
            };
            let lowered: Option<&std::string::String> = match &name {
                Some(n) => Some(n),
                None => None,
            };
            assert(text_of(lowered) == option_name(a@));
            assert(text_of(next) == next_arg(argv, i as int));
            apply_option(lowered, a, next, custom_cc, flag, &mut notices);
        }
        i += 1;
    }
    notices
}

} // verus!
