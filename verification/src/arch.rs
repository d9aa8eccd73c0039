//! Processor architectures and the names they go by.

use crate::maps::Duplicate;
use crate::strings::{
    cat2, char_is_alnum, chars_of, join, same, starts_with, strip_prefix, swap_char, to_lower, trim,
};
use crate::text::{
    after_prefix, is_alnum, is_space, join_of, lemma_take_push, lemma_texts_push, lemma_trim_ends,
    lemma_trimmed_whole, lower, lower_char, swapped, texts, trimmed,
};
use vstd::prelude::*;
use vstd::string::*;

verus! {

broadcast use lemma_take_push;

/// An architecture under its canonical name.
#[derive(Debug, PartialEq, Eq, PartialOrd, Ord)]
pub struct Architecture(String);

impl View for Architecture {
    type V = Seq<char>;

    closed spec fn view(&self) -> Seq<char> {
        self.0@
    }
}

/// An architecture name in lower case, with `_` for `-`, without a `linux/` before it.
pub open spec fn plain_name(value: Seq<char>) -> Seq<char> {
    let low = swapped(lower(trimmed(value)), '-', '_');
    match after_prefix(low, "linux/"@) {
        Some(rest) => rest,
        None => low,
    }
}

/// The canonical name of an architecture. A blank name stands for none.
pub open spec fn canonical_arch(value: Seq<char>) -> Option<Seq<char>> {
    if trimmed(value).len() == 0 {
        None
    } else {
        let name = plain_name(value);
        if name == "amd64"@ || name == "x64"@ || name == "x86_64"@ {
            Some("x64"@)
        } else if name == "arm64"@ || name == "aarch64"@ {
            Some("arm64"@)
        } else {
            Some(swapped(name, '_', '-'))
        }
    }
}

/// The container platform of an architecture.
pub open spec fn platform_of(arch: Seq<char>) -> Seq<char> {
    if arch == "x64"@ {
        "linux/amd64"@
    } else if arch == "arm64"@ {
        "linux/arm64"@
    } else if "linux/"@.is_prefix_of(arch) {
        arch
    } else {
        "linux/"@ + arch
    }
}

/// A name that may end the name of a file: letters, digits, `-` and `_`; every other
/// character stands as `-`.
pub open spec fn suffix_of(arch: Seq<char>) -> Seq<char> {
    arch.map_values(|c: char| if is_alnum(c) || c == '-' || c == '_' { c } else { '-' })
}

/// The architecture that a machine name stands for; `x64` where the name is blank.
pub open spec fn host_of(machine: Seq<char>) -> Seq<char> {
    match canonical_arch(machine) {
        Some(name) => name,
        None => "x64"@,
    }
}

impl Clone for Architecture {
    fn clone(&self) -> (r: Self)
        ensures
            r@ == self@,
    {
        Architecture(self.0.clone())
    }
}

impl Duplicate for Architecture {
    fn duplicate(&self) -> (r: Self) {
        Architecture(self.0.clone())
    }
}

impl Architecture {
    /// The architecture of the machine that the tool runs on, by that machine's name.
    pub fn host(machine: &str) -> (r: Self)
        ensures
            r@ == host_of(machine@),
    {
        match Self::from_alias(machine) {
            Some(arch) => arch,
            None => Architecture("x64".to_owned()),
        }
    }

    /// The canonical name.
    pub fn as_str(&self) -> (r: &str)
        ensures
            r@ == self@,
    {
        self.0.as_str()
    }

    /// The canonical name as a string.
    pub fn to_text(&self) -> (r: String)
        ensures
            r@ == self@,
    {
        self.0.clone()
    }

    /// The name as it ends the name of a runner.
    pub fn runner_suffix(&self) -> (r: String)
        ensures
            r@ == suffix_of(self@),
    {
        let v = chars_of(self.0.as_str());
        let mut out = String::new();
        let mut i: usize = 0;
        while i < v.len()
            invariant
                i <= v@.len(),
                v@ == self@,
                out@ == suffix_of(self@).take(i as int),
            decreases v.len() - i,
        {
            let c = v[i];
            out.push(if char_is_alnum(c) || c == '-' || c == '_' { c } else { '-' });
            i += 1;
        }
        assert(suffix_of(self@).take(i as int) =~= suffix_of(self@));
        out
    }

    /// The container platform.
    pub fn platform(&self) -> (r: String)
        ensures
            r@ == platform_of(self@),
    {
        let name = self.0.as_str();
        if same(name, "x64") {
            "linux/amd64".to_owned()
        } else if same(name, "arm64") {
            "linux/arm64".to_owned()
        } else if starts_with(name, "linux/") {
            name.to_owned()
        } else {
            cat2("linux/", name)
        }
    }

    /// The architecture that a name or an alias stands for.
    pub fn from_alias(value: &str) -> (r: Option<Self>)
        ensures
            r matches Some(a) ==> canonical_arch(value@) == Some(a@),
            r is None ==> canonical_arch(value@) is None,
    {
        let value = trim(value);
        if value.is_empty() {
            return None;
        }
        let lowered = to_lower(value);
        let low = swap_char(lowered.as_str(), '-', '_');
        let name = match strip_prefix(low.as_str(), "linux/") {
            Some(rest) => rest,
            None => low.as_str(),
        };
        let canonical = if same(name, "amd64") || same(name, "x64") || same(name, "x86_64") {
            "x64".to_owned()
        } else if same(name, "arm64") || same(name, "aarch64") {
            "arm64".to_owned()
        } else {
            swap_char(name, '_', '-')
        };
        Some(Architecture(canonical))
    }

    /// The architecture that a name or an alias stands for, or why there is none.
    pub fn parse(value: &str) -> (r: Result<Self, String>)
        ensures
            r matches Ok(a) ==> canonical_arch(value@) == Some(a@),
            r matches Err(e) ==> canonical_arch(value@) is None && e@
                == "architecture must not be empty"@,
    {
        match Self::from_alias(value) {
            Some(arch) => Ok(arch),
            None => Err("architecture must not be empty".to_owned()),
        }
    }

    /// Whether two architectures are the same.
    pub fn same_as(&self, other: &Self) -> (r: bool)
        ensures
            r == (self@ == other@),
    {
        same(self.0.as_str(), other.0.as_str())
    }
}

/// The names of a sequence of architectures.
pub open spec fn arch_names(v: Seq<Architecture>) -> Seq<Seq<char>> {
    v.map_values(|a: Architecture| a@)
}

/// The names of a longer sequence.
pub proof fn lemma_arch_names_push(v: Seq<Architecture>, x: Architecture)
    ensures
        arch_names(v.push(x)) == arch_names(v).push(x@),
{
    assert(arch_names(v.push(x)) =~= arch_names(v).push(x@));
}

/// A copy of a list of architectures.
pub fn copy_arches(list: &[Architecture]) -> (r: Vec<Architecture>)
    ensures
        arch_names(r@) == arch_names(list@),
{
    let mut out: Vec<Architecture> = Vec::new();
    let mut i: usize = 0;
    assert(arch_names(out@) =~= arch_names(list@).take(0));
    while i < list.len()
        invariant
            i <= list@.len(),
            arch_names(out@) == arch_names(list@).take(i as int),
        decreases list.len() - i,
    {
        let item = list[i].duplicate();
        proof {
            lemma_arch_names_push(out@, item);
        }
        out.push(item);
        i += 1;
    }
    assert(arch_names(list@).take(i as int) =~= arch_names(list@));
    out
}

/// The names of the architectures as strings.
pub fn arch_texts(list: &[Architecture]) -> (r: Vec<String>)
    ensures
        texts(r@) == arch_names(list@),
{
    broadcast use lemma_texts_push;

    let mut out: Vec<String> = Vec::new();
    let mut i: usize = 0;
    assert(texts(out@) =~= arch_names(list@).take(0));
    while i < list.len()
        invariant
            i <= list@.len(),
            texts(out@) == arch_names(list@).take(i as int),
        decreases list.len() - i,
    {
        out.push(list[i].to_text());
        i += 1;
    }
    assert(arch_names(list@).take(i as int) =~= arch_names(list@));
    out
}

/// The architectures in one line, separated by commas; the host's where there are none.
pub open spec fn arches_line(arches: Seq<Seq<char>>, host: Seq<char>) -> Seq<char> {
    if arches.len() == 0 {
        host
    } else {
        join_of(arches, ","@)
    }
}

/// The architectures in one line, separated by commas; `host` where there are none.
pub fn format_arches(arches: &[Architecture], host: &Architecture) -> (r: String)
    ensures
        r@ == arches_line(arch_names(arches@), host@),
{
    if arches.len() == 0 {
        return host.to_text();
    }
    let names = arch_texts(arches);
    join(names.as_slice(), ",")
}

/// A canonical name stands for itself, where it neither begins with `linux/` again
/// nor is blank at an end.
pub proof fn law_canonical_names_are_fixed(value: Seq<char>)
    requires
        canonical_arch(value) is Some,
        !"linux/"@.is_prefix_of(canonical_arch(value)->0),
        trimmed(canonical_arch(value)->0) == canonical_arch(value)->0,
        canonical_arch(value)->0.len() > 0,
    ensures
        canonical_arch(canonical_arch(value)->0) == canonical_arch(value),
{
    let name = plain_name(value);
    let c = canonical_arch(value)->0;
    reveal_strlit("linux/");
    if c == "x64"@ {
        reveal_strlit("x64");
        let low = swapped(lower(c), '-', '_');
        assert(low =~= "x64"@);
        assert(low.len() < "linux/"@.len());
    } else if c == "arm64"@ {
        reveal_strlit("arm64");
        reveal_strlit("amd64");
        reveal_strlit("x64");
        reveal_strlit("x86_64");
        assert("amd64"@[1] != "arm64"@[1]);
        let low = swapped(lower(c), '-', '_');
        assert(low =~= "arm64"@);
        assert(low.len() < "linux/"@.len());
    } else {
        let low0 = swapped(lower(trimmed(value)), '-', '_');
        assert forall|i: int| 0 <= i < name.len() implies #[trigger] name[i] == lower_char(name[i]) && name[i] != '-' by {
            if "linux/"@.is_prefix_of(low0) {
                assert(name[i] == low0[i + "linux/"@.len()]);
            } else {
                assert(name[i] == low0[i]);
            }
        }
        let low = swapped(lower(c), '-', '_');
        assert(low =~= name);
        if "linux/"@.is_prefix_of(name) {
            assert forall|i: int| 0 <= i < 6 implies c[i] == "linux/"@[i] by {
                assert(name[i] == "linux/"@[i]);
            }
            assert("linux/"@ =~= c.subrange(0, 6));
            assert(false);
        }
        assert(plain_name(c) == name);
    }
}

/// The container platform of an architecture stands for that architecture, where its name
/// does not begin with `linux/` again.
pub proof fn law_platforms_name_their_architecture(value: Seq<char>)
    requires
        canonical_arch(value) is Some,
        !"linux/"@.is_prefix_of(canonical_arch(value)->0),
    ensures
        canonical_arch(platform_of(canonical_arch(value)->0)) == canonical_arch(value),
{
    let name = plain_name(value);
    let c = canonical_arch(value)->0;
    let p = platform_of(c);
    reveal_strlit("linux/");
    reveal_strlit("x64");
    reveal_strlit("arm64");
    reveal_strlit("amd64");
    reveal_strlit("x86_64");
    reveal_strlit("aarch64");
    reveal_strlit("linux/amd64");
    reveal_strlit("linux/arm64");
    let linux = "linux/"@;
    let bare = if c == "x64"@ {
        "amd64"@
    } else {
        c
    };
    assert(p =~= linux + bare);
    let low0 = swapped(lower(trimmed(value)), '-', '_');
    assert forall|i: int| 0 <= i < name.len() implies #[trigger] name[i] == lower_char(name[i]) && name[i] != '-' by {
        if linux.is_prefix_of(low0) {
            assert(name[i] == low0[i + linux.len()]);
        } else {
            assert(name[i] == low0[i]);
        }
    }
    if bare.len() > 0 && c != "x64"@ && c != "arm64"@ {
        lemma_trim_ends(value);
        assert(name.last() == low0.last());
        assert(trimmed(value).len() > 0);
        assert(!is_space(c.last()));
    }
    lemma_trimmed_whole(p);
    assert(swapped(lower(p), '-', '_') =~= linux + swapped(lower(bare), '-', '_'));
    let low = swapped(lower(p), '-', '_');
    assert(linux =~= low.subrange(0, linux.len() as int));
    assert(low.skip(linux.len() as int) =~= swapped(lower(bare), '-', '_'));
    if c == "x64"@ {
        assert(swapped(lower(bare), '-', '_') =~= "amd64"@);
    } else if c == "arm64"@ {
        assert(swapped(lower(bare), '-', '_') =~= "arm64"@);
        assert("amd64"@[1] != "arm64"@[1]);
    } else {
        assert(swapped(lower(bare), '-', '_') =~= name);
        assert(name != "amd64"@ && name != "x64"@ && name != "x86_64"@ && name != "arm64"@ && name != "aarch64"@);
    }
}

/// Every way to write one of the two common architectures stands for its one name, and any
/// other name of small letters and digits stands for itself.
pub proof fn law_names_of_architectures(name: Seq<char>)
    ensures
        canonical_arch("x64"@) == Some("x64"@),
        canonical_arch("amd64"@) == Some("x64"@),
        canonical_arch("x86_64"@) == Some("x64"@),
        canonical_arch("x86-64"@) == Some("x64"@),
        canonical_arch("AMD64"@) == Some("x64"@),
        canonical_arch("X64"@) == Some("x64"@),
        canonical_arch("linux/amd64"@) == Some("x64"@),
        canonical_arch("linux/x64"@) == Some("x64"@),
        canonical_arch("arm64"@) == Some("arm64"@),
        canonical_arch("aarch64"@) == Some("arm64"@),
        canonical_arch("ARM64"@) == Some("arm64"@),
        canonical_arch("linux/arm64"@) == Some("arm64"@),
        name.len() > 0 && (forall|i: int| 0 <= i < name.len() ==> 'a' <= #[trigger] name[i] <= 'z' || '0' <= name[i] <= '9') && name
            != "amd64"@ && name != "aarch64"@ ==> canonical_arch(name) == Some(name),
        canonical_arch(Seq::empty()) is None,
        host_of(Seq::empty()) == "x64"@,
{
    lemma_alias_0();
    lemma_alias_1();
    lemma_alias_2();
    lemma_alias_3();
    lemma_alias_4();
    lemma_alias_5();
    lemma_alias_6();
    lemma_alias_7();
    lemma_alias_8();
    lemma_alias_9();
    lemma_alias_10();
    lemma_alias_11();
    if name.len() > 0 && (forall|i: int| 0 <= i < name.len() ==> 'a' <= #[trigger] name[i] <= 'z' || '0' <= name[i] <= '9') && name
        != "amd64"@ && name != "aarch64"@ {
        reveal_strlit("x86_64");
        reveal_strlit("linux/");
        assert(name[0] == name.first() && name[name.len() - 1] == name.last());
        lemma_trimmed_whole(name);
        assert(swapped(lower(name), '-', '_') =~= name);
        if "linux/"@.is_prefix_of(name) {
            assert("linux/"@[5] == name.subrange(0, 6)[5]);
            assert(name[5] == '/');
        }
        assert(name != "x86_64"@) by {
            if name == "x86_64"@ {
                assert(name[3] == '_');
            }
        }
        assert(swapped(name, '_', '-') =~= name);
    }
}

proof fn lemma_alias_0()
    ensures
        canonical_arch("x64"@) == Some("x64"@),
{
    reveal_strlit("x64");
    reveal_strlit("linux/");
    reveal_strlit("amd64");
    reveal_strlit("x86_64");
    reveal_strlit("arm64");
    reveal_strlit("aarch64");
    lemma_trimmed_whole("x64"@);
    assert(swapped(lower("x64"@), '-', '_') =~= "x64"@);
    assert("x64"@.len() != "amd64"@.len());
    assert("x64"@.len() != "x86_64"@.len());
    assert("x64"@.len() != "arm64"@.len());
    assert("x64"@.len() != "aarch64"@.len());
}

proof fn lemma_alias_1()
    ensures
        canonical_arch("amd64"@) == Some("x64"@),
{
    reveal_strlit("amd64");
    reveal_strlit("linux/");
    reveal_strlit("x64");
    reveal_strlit("x86_64");
    reveal_strlit("arm64");
    reveal_strlit("aarch64");
    lemma_trimmed_whole("amd64"@);
    assert(swapped(lower("amd64"@), '-', '_') =~= "amd64"@);
    assert("amd64"@.len() != "x64"@.len());
    assert("amd64"@.len() != "x86_64"@.len());
    assert("amd64"@[1] != "arm64"@[1]);
    assert("amd64"@.len() != "aarch64"@.len());
}

proof fn lemma_alias_2()
    ensures
        canonical_arch("x86_64"@) == Some("x64"@),
{
    reveal_strlit("x86_64");
    reveal_strlit("linux/");
    reveal_strlit("amd64");
    reveal_strlit("x64");
    reveal_strlit("arm64");
    reveal_strlit("aarch64");
    lemma_trimmed_whole("x86_64"@);
    assert(swapped(lower("x86_64"@), '-', '_') =~= "x86_64"@);
    if "linux/"@.is_prefix_of("x86_64"@) {
        assert("linux/"@[0] == "x86_64"@.subrange(0, 6)[0]);
    }
    assert("x86_64"@.len() != "amd64"@.len());
    assert("x86_64"@.len() != "x64"@.len());
    assert("x86_64"@.len() != "arm64"@.len());
    assert("x86_64"@.len() != "aarch64"@.len());
}

proof fn lemma_alias_3()
    ensures
        canonical_arch("x86-64"@) == Some("x64"@),
{
    reveal_strlit("x86-64");
    reveal_strlit("x86_64");
    reveal_strlit("linux/");
    reveal_strlit("amd64");
    reveal_strlit("x64");
    reveal_strlit("arm64");
    reveal_strlit("aarch64");
    lemma_trimmed_whole("x86-64"@);
    assert(swapped(lower("x86-64"@), '-', '_') =~= "x86_64"@);
    if "linux/"@.is_prefix_of("x86_64"@) {
        assert("linux/"@[0] == "x86_64"@.subrange(0, 6)[0]);
    }
    assert("x86_64"@.len() != "amd64"@.len());
    assert("x86_64"@.len() != "x64"@.len());
    assert("x86_64"@.len() != "arm64"@.len());
    assert("x86_64"@.len() != "aarch64"@.len());
}

proof fn lemma_alias_4()
    ensures
        canonical_arch("AMD64"@) == Some("x64"@),
{
    reveal_strlit("AMD64");
    reveal_strlit("amd64");
    reveal_strlit("linux/");
    reveal_strlit("x64");
    reveal_strlit("x86_64");
    reveal_strlit("arm64");
    reveal_strlit("aarch64");
    lemma_trimmed_whole("AMD64"@);
    assert(swapped(lower("AMD64"@), '-', '_') =~= "amd64"@);
    assert("amd64"@.len() != "x64"@.len());
    assert("amd64"@.len() != "x86_64"@.len());
    assert("amd64"@[1] != "arm64"@[1]);
    assert("amd64"@.len() != "aarch64"@.len());
}

proof fn lemma_alias_5()
    ensures
        canonical_arch("X64"@) == Some("x64"@),
{
    reveal_strlit("X64");
    reveal_strlit("x64");
    reveal_strlit("linux/");
    reveal_strlit("amd64");
    reveal_strlit("x86_64");
    reveal_strlit("arm64");
    reveal_strlit("aarch64");
    lemma_trimmed_whole("X64"@);
    assert(swapped(lower("X64"@), '-', '_') =~= "x64"@);
    assert("x64"@.len() != "amd64"@.len());
    assert("x64"@.len() != "x86_64"@.len());
    assert("x64"@.len() != "arm64"@.len());
    assert("x64"@.len() != "aarch64"@.len());
}

proof fn lemma_alias_6()
    ensures
        canonical_arch("linux/amd64"@) == Some("x64"@),
{
    reveal_strlit("linux/amd64");
    reveal_strlit("amd64");
    reveal_strlit("linux/");
    reveal_strlit("x64");
    reveal_strlit("x86_64");
    reveal_strlit("arm64");
    reveal_strlit("aarch64");
    lemma_trimmed_whole("linux/amd64"@);
    assert(swapped(lower("linux/amd64"@), '-', '_') =~= "linux/amd64"@);
    assert("linux/"@ =~= "linux/amd64"@.subrange(0, 6));
    assert("linux/amd64"@.skip(6) =~= "amd64"@);
    assert("amd64"@.len() != "x64"@.len());
    assert("amd64"@.len() != "x86_64"@.len());
    assert("amd64"@[1] != "arm64"@[1]);
    assert("amd64"@.len() != "aarch64"@.len());
}

proof fn lemma_alias_7()
    ensures
        canonical_arch("linux/x64"@) == Some("x64"@),
{
    reveal_strlit("linux/x64");
    reveal_strlit("x64");
    reveal_strlit("linux/");
    reveal_strlit("amd64");
    reveal_strlit("x86_64");
    reveal_strlit("arm64");
    reveal_strlit("aarch64");
    lemma_trimmed_whole("linux/x64"@);
    assert(swapped(lower("linux/x64"@), '-', '_') =~= "linux/x64"@);
    assert("linux/"@ =~= "linux/x64"@.subrange(0, 6));
    assert("linux/x64"@.skip(6) =~= "x64"@);
    assert("x64"@.len() != "amd64"@.len());
    assert("x64"@.len() != "x86_64"@.len());
    assert("x64"@.len() != "arm64"@.len());
    assert("x64"@.len() != "aarch64"@.len());
}

proof fn lemma_alias_8()
    ensures
        canonical_arch("arm64"@) == Some("arm64"@),
{
    reveal_strlit("arm64");
    reveal_strlit("linux/");
    reveal_strlit("amd64");
    reveal_strlit("x64");
    reveal_strlit("x86_64");
    reveal_strlit("aarch64");
    lemma_trimmed_whole("arm64"@);
    assert(swapped(lower("arm64"@), '-', '_') =~= "arm64"@);
    assert("arm64"@[1] != "amd64"@[1]);
    assert("arm64"@.len() != "x64"@.len());
    assert("arm64"@.len() != "x86_64"@.len());
    assert("arm64"@.len() != "aarch64"@.len());
}

proof fn lemma_alias_9()
    ensures
        canonical_arch("aarch64"@) == Some("arm64"@),
{
    reveal_strlit("aarch64");
    reveal_strlit("linux/");
    reveal_strlit("amd64");
    reveal_strlit("x64");
    reveal_strlit("x86_64");
    reveal_strlit("arm64");
    lemma_trimmed_whole("aarch64"@);
    assert(swapped(lower("aarch64"@), '-', '_') =~= "aarch64"@);
    if "linux/"@.is_prefix_of("aarch64"@) {
        assert("linux/"@[0] == "aarch64"@.subrange(0, 6)[0]);
    }
    assert("aarch64"@.len() != "amd64"@.len());
    assert("aarch64"@.len() != "x64"@.len());
    assert("aarch64"@.len() != "x86_64"@.len());
    assert("aarch64"@.len() != "arm64"@.len());
}

proof fn lemma_alias_10()
    ensures
        canonical_arch("ARM64"@) == Some("arm64"@),
{
    reveal_strlit("ARM64");
    reveal_strlit("arm64");
    reveal_strlit("linux/");
    reveal_strlit("amd64");
    reveal_strlit("x64");
    reveal_strlit("x86_64");
    reveal_strlit("aarch64");
    lemma_trimmed_whole("ARM64"@);
    assert(swapped(lower("ARM64"@), '-', '_') =~= "arm64"@);
    assert("arm64"@[1] != "amd64"@[1]);
    assert("arm64"@.len() != "x64"@.len());
    assert("arm64"@.len() != "x86_64"@.len());
    assert("arm64"@.len() != "aarch64"@.len());
}

proof fn lemma_alias_11()
    ensures
        canonical_arch("linux/arm64"@) == Some("arm64"@),
{
    reveal_strlit("linux/arm64");
    reveal_strlit("arm64");
    reveal_strlit("linux/");
    reveal_strlit("amd64");
    reveal_strlit("x64");
    reveal_strlit("x86_64");
    reveal_strlit("aarch64");
    lemma_trimmed_whole("linux/arm64"@);
    assert(swapped(lower("linux/arm64"@), '-', '_') =~= "linux/arm64"@);
    assert("linux/"@ =~= "linux/arm64"@.subrange(0, 6));
    assert("linux/arm64"@.skip(6) =~= "arm64"@);
    assert("arm64"@[1] != "amd64"@[1]);
    assert("arm64"@.len() != "x64"@.len());
    assert("arm64"@.len() != "x86_64"@.len());
    assert("arm64"@.len() != "aarch64"@.len());
}


/// A platform names the operating system and then the architecture as images name it; a name that
/// is a platform already stays. In the name of a file only letters, digits, `-` and `_` are left,
/// in their places.
pub proof fn law_platforms_and_file_names(arch: Seq<char>, i: int)
    ensures
        "linux/"@.is_prefix_of(platform_of(arch)),
        platform_of(platform_of(arch)) == platform_of(arch),
        platform_of("x64"@) == "linux/"@ + "amd64"@,
        arch != "x64"@ && !"linux/"@.is_prefix_of(arch) ==> platform_of(arch) == "linux/"@ + arch,
        suffix_of(arch).len() == arch.len(),
        0 <= i < arch.len() && (is_alnum(arch[i]) || arch[i] == '-' || arch[i] == '_') ==> suffix_of(arch)[i] == arch[i],
        0 <= i < arch.len() && !(is_alnum(arch[i]) || arch[i] == '-' || arch[i] == '_') ==> suffix_of(arch)[i] == '-',
{
    reveal_strlit("x64");
    reveal_strlit("arm64");
    reveal_strlit("amd64");
    reveal_strlit("linux/");
    reveal_strlit("linux/amd64");
    reveal_strlit("linux/arm64");
    assert("linux/"@ =~= "linux/amd64"@.subrange(0, 6));
    assert("linux/"@ =~= "linux/arm64"@.subrange(0, 6));
    assert("linux/"@ =~= ("linux/"@ + arch).subrange(0, 6));
    assert("linux/amd64"@ =~= "linux/"@ + "amd64"@);
    assert("linux/arm64"@ =~= "linux/"@ + "arm64"@);
    let p = platform_of(arch);
    assert("linux/"@.is_prefix_of(p));
    assert(p.len() >= 6);
    assert(p[0] == 'l') by {
        assert("linux/"@[0] == p.subrange(0, 6)[0]);
    }
    assert("x64"@.len() == 3);
    assert("arm64"@.len() == 5);
}

/// Without an architecture the one of this machine is shown, else those that are given.
pub proof fn law_the_architectures_that_are_shown(arch: Seq<char>, host: Seq<char>)
    ensures
        arches_line(Seq::empty(), host) == host,
        arches_line(seq![arch], host) == arch,
{
}

} // verus!
