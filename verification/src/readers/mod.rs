//! Readers: icons held by the name that identifies them.

use vstd::prelude::*;
use vstd::string::*;
use crate::converters::svgl::SvgIcon;
use crate::order::same_text;

verus! {

/// What a reader holds of an icon set.
pub struct IconSetData {
    pub prefix: String,
    pub name: String,
    pub total: u32,
    pub version: String,
}

/// What a reader holds of a standalone icon.
pub struct SvgIconData {
    pub id: String,
    pub filename: String,
    pub svg_content: String,
}

/// Reader for icon sets, each held under its prefix.
pub struct IconSetsReader {
    sets: Vec<IconSetData>,
}

/// Reader for standalone icons, each held under its name. No name is held
/// twice.
pub struct SvglReader {
    icons: Vec<SvgIconData>,
}

impl View for IconSetsReader {
    type V = Seq<IconSetData>;

    closed spec fn view(&self) -> Seq<IconSetData> {
        self.sets@
    }
}

impl View for SvglReader {
    type V = Seq<SvgIconData>;

    closed spec fn view(&self) -> Seq<SvgIconData> {
        self.icons@
    }
}

/// Whether `i` is the first position of an icon set of the given prefix.
pub open spec fn first_set_under(sets: Seq<IconSetData>, prefix: Seq<char>, i: int) -> bool {
    &&& 0 <= i < sets.len()
    &&& sets[i].prefix@ == prefix
    &&& forall|j: int| 0 <= j < i ==> sets[j].prefix@ != prefix
}

/// Whether `i` is the first position of an icon of the given name.
pub open spec fn first_icon_under(icons: Seq<SvgIconData>, name: Seq<char>, i: int) -> bool {
    &&& 0 <= i < icons.len()
    &&& icons[i].id@ == name
    &&& forall|j: int| 0 <= j < i ==> icons[j].id@ != name
}

/// The last position below `n` of an icon of the given name, or -1.
pub open spec fn last_named(icons: Seq<SvgIcon>, name: Seq<char>, n: int) -> int
    decreases n,
{
    if n <= 0 || n > icons.len() {
        -1
    } else if icons[n - 1].filename@ == name {
        n - 1
    } else {
        last_named(icons, name, n - 1)
    }
}

impl IconSetsReader {
    /// A reader that holds no icon set.
    pub fn new() -> (reader: IconSetsReader)
        ensures
            reader@.len() == 0,
    {
        IconSetsReader { sets: Vec::new() }
    }

    /// The first icon set held under the given prefix.
    pub fn get(&self, id: &str) -> (found: Option<&IconSetData>)
        ensures
            match found {
                Some(set) => exists|i: int|
                    #[trigger] first_set_under(self@, id@, i) && self@[i] == *set,
                None => forall|i: int| 0 <= i < self@.len() ==> self@[i].prefix@ != id@,
            },
    {
        let mut i: usize = 0;
        while i < self.sets.len()
            invariant
                i <= self.sets@.len(),
                forall|j: int| 0 <= j < i ==> self.sets@[j].prefix@ != id@,
            decreases self.sets@.len() - i,
        {
            if same_text(self.sets[i].prefix.as_str(), id) {
                assert(first_set_under(self@, id@, i as int));
                return Some(&self.sets[i]);
            }
            i = i + 1;
        }
        None
    }

    /// The prefixes of the icon sets held, in the order they are held.
    pub fn list_sets(&self) -> (prefixes: Vec<&str>)
        ensures
            prefixes@.len() == self@.len(),
            forall|i: int| 0 <= i < self@.len() ==> prefixes@[i]@ == self@[i].prefix@,
    {
        let mut prefixes: Vec<&str> = Vec::new();
        let mut i: usize = 0;
        while i < self.sets.len()
            invariant
                i <= self.sets@.len(),
                prefixes@.len() == i,
                forall|j: int| 0 <= j < i ==> prefixes@[j]@ == self.sets@[j].prefix@,
            decreases self.sets@.len() - i,
        {
            prefixes.push(self.sets[i].prefix.as_str());
            i = i + 1;
        }
        prefixes
    }
}

impl Default for IconSetsReader {
    fn default() -> (reader: IconSetsReader)
        ensures
            reader@.len() == 0,
    {
        IconSetsReader::new()
    }
}

impl SvglReader {
    /// Whether no name is held twice.
    pub open spec fn wf(&self) -> bool {
        forall|i: int, j: int| 0 <= i < j < self@.len() ==> self@[i].id@ != self@[j].id@
    }

    /// Whether an icon is held under the given name.
    pub open spec fn holds(&self, name: Seq<char>) -> bool {
        exists|i: int| 0 <= i < self@.len() && self@[i].id@ == name
    }

    /// A reader that holds no icon.
    pub fn new() -> (reader: SvglReader)
        ensures
            reader@.len() == 0,
            reader.wf(),
    {
        SvglReader { icons: Vec::new() }
    }

    /// A reader that holds the given icons, each under its name. Of icons
    /// with the same name the last one is held.
    pub fn from_icons(icons: &[SvgIcon]) -> (reader: SvglReader)
        ensures
            reader.wf(),
            forall|name: Seq<char>|
                reader.holds(name) <==> last_named(icons@, name, icons@.len() as int) >= 0,
            forall|i: int|
                0 <= i < reader@.len() ==> {
                    let at = last_named(icons@, (#[trigger] reader@[i]).id@, icons@.len() as int);
                    &&& 0 <= at < icons@.len()
                    &&& reader@[i].filename@ == icons@[at].filename@
                    &&& reader@[i].svg_content@ == icons@[at].svg_content@
                },
    {
        let mut held: Vec<SvgIconData> = Vec::new();
        let mut k: usize = 0;
        while k < icons.len()
            invariant
                k <= icons@.len(),
                forall|i: int, j: int| 0 <= i < j < held@.len() ==> held@[i].id@ != held@[j].id@,
                forall|name: Seq<char>|
                    (exists|i: int| 0 <= i < held@.len() && held@[i].id@ == name) <==> last_named(
                        icons@,
                        name,
                        k as int,
                    ) >= 0,
                forall|i: int|
                    0 <= i < held@.len() ==> {
                        let at = last_named(icons@, (#[trigger] held@[i]).id@, k as int);
                        &&& 0 <= at < icons@.len()
                        &&& held@[i].filename@ == icons@[at].filename@
                        &&& held@[i].svg_content@ == icons@[at].svg_content@
                    },
            decreases icons@.len() - k,
        {
            let icon = &icons[k];
            let data = SvgIconData {
                id: String::from_str(icon.filename.as_str()),
                filename: String::from_str(icon.filename.as_str()),
                svg_content: String::from_str(icon.svg_content.as_str()),
            };
            let ghost before = held@;
            let mut at: usize = 0;
            while at < held.len() && !same_text(held[at].id.as_str(), icon.filename.as_str())
                invariant
                    at <= held@.len(),
                    forall|j: int| 0 <= j < at ==> held@[j].id@ != icon.filename@,
                decreases held@.len() - at,
            {
                at = at + 1;
            }
            if at < held.len() {
                held.set(at, data);
            } else {
                held.push(data);
            }
            proof {
                let name = icon.filename@;
                let next = k + 1;
                assert forall|m: Seq<char>|
                    (exists|i: int| 0 <= i < held@.len() && held@[i].id@ == m)
                        <==> #[trigger] last_named(icons@, m, next) >= 0 by {
                    if m == name {
                        assert(held@[at as int].id@ == m);
                    } else {
                        if exists|i: int| 0 <= i < held@.len() && held@[i].id@ == m {
                            let i = choose|i: int| 0 <= i < held@.len() && held@[i].id@ == m;
                            assert(before[i].id@ == m);
                        }
                        if last_named(icons@, m, k as int) >= 0 {
                            let i = choose|i: int| 0 <= i < before.len() && before[i].id@ == m;
                            assert(held@[i].id@ == m);
                        }
                    }
                }
                assert forall|i: int| 0 <= i < held@.len() implies {
                    let at = last_named(icons@, (#[trigger] held@[i]).id@, next);
                    &&& 0 <= at < icons@.len()
                    &&& held@[i].filename@ == icons@[at].filename@
                    &&& held@[i].svg_content@ == icons@[at].svg_content@
                } by {
                    if i != at {
                        assert(held@[i] == before[i]);
                    }
                }
            }
            k = k + 1;
        }
        SvglReader { icons: held }
    }

    /// The icon held under the given name.
    pub fn get(&self, id: &str) -> (found: Option<&SvgIconData>)
        ensures
            match found {
                Some(icon) => exists|i: int|
                    #[trigger] first_icon_under(self@, id@, i) && self@[i] == *icon,
                None => !self.holds(id@),
            },
    {
        let mut i: usize = 0;
        while i < self.icons.len()
            invariant
                i <= self.icons@.len(),
                forall|j: int| 0 <= j < i ==> self.icons@[j].id@ != id@,
            decreases self.icons@.len() - i,
        {
            if same_text(self.icons[i].id.as_str(), id) {
                assert(first_icon_under(self@, id@, i as int));
                return Some(&self.icons[i]);
            }
            i = i + 1;
        }
        None
    }

    /// The names of the icons held, in the order they are held.
    pub fn list_icons(&self) -> (names: Vec<&str>)
        ensures
            names@.len() == self@.len(),
            forall|i: int| 0 <= i < self@.len() ==> names@[i]@ == self@[i].id@,
    {
        let mut names: Vec<&str> = Vec::new();
        let mut i: usize = 0;
        while i < self.icons.len()
            invariant
                i <= self.icons@.len(),
                names@.len() == i,
                forall|j: int| 0 <= j < i ==> names@[j]@ == self.icons@[j].id@,
            decreases self.icons@.len() - i,
        {
            names.push(self.icons[i].id.as_str());
            i = i + 1;
        }
        names
    }

    /// The number of icons held.
    pub fn count(&self) -> (n: usize)
        ensures
            n == self@.len(),
    {
        self.icons.len()
    }
}

impl Default for SvglReader {
    fn default() -> (reader: SvglReader)
        ensures
            reader@.len() == 0,
            reader.wf(),
    {
        SvglReader::new()
    }
}

} // verus!
