//! `<w:rFonts>`: the fonts of a run, by script, and the theme fonts.

use vstd::prelude::*;

use crate::reader::{last_attribute_value, last_value, ReaderError};
use crate::xml_parser::{attributes_view, opt_text, AttributeModel, OwnedAttribute};

verus! {

/// Fonts and theme fonts of a run; each is set or not.
#[derive(Debug, Clone, PartialEq, Default)]
pub struct RunFonts {
    pub ascii: Option<String>,
    pub hi_ansi: Option<String>,
    pub east_asia: Option<String>,
    pub cs: Option<String>,
    pub ascii_theme: Option<String>,
    pub hi_ansi_theme: Option<String>,
    pub east_asia_theme: Option<String>,
    pub cs_theme: Option<String>,
    pub hint: Option<String>,
}

pub struct RunFontsModel {
    pub ascii: Option<Seq<char>>,
    pub hi_ansi: Option<Seq<char>>,
    pub east_asia: Option<Seq<char>>,
    pub cs: Option<Seq<char>>,
    pub ascii_theme: Option<Seq<char>>,
    pub hi_ansi_theme: Option<Seq<char>>,
    pub east_asia_theme: Option<Seq<char>>,
    pub cs_theme: Option<Seq<char>>,
    pub hint: Option<Seq<char>>,
}

impl View for RunFonts {
    type V = RunFontsModel;

    open spec fn view(&self) -> RunFontsModel {
        RunFontsModel {
            ascii: opt_text(self.ascii),
            hi_ansi: opt_text(self.hi_ansi),
            east_asia: opt_text(self.east_asia),
            cs: opt_text(self.cs),
            ascii_theme: opt_text(self.ascii_theme),
            hi_ansi_theme: opt_text(self.hi_ansi_theme),
            east_asia_theme: opt_text(self.east_asia_theme),
            cs_theme: opt_text(self.cs_theme),
            hint: opt_text(self.hint),
        }
    }
}

/// The fonts that the attributes of a `w:rFonts` element set: each font is
/// the value of the last attribute of its local name (`ascii`, `hAnsi`,
/// `eastAsia`, `cs`, `asciiTheme`, `hAnsiTheme`, `eastAsiaTheme`,
/// `cstheme`, `hint`); other attributes are ignored.
pub open spec fn run_fonts_of(a: Seq<AttributeModel>) -> RunFontsModel {
    RunFontsModel {
        ascii: last_value(a, "ascii"@),
        hi_ansi: last_value(a, "hAnsi"@),
        east_asia: last_value(a, "eastAsia"@),
        cs: last_value(a, "cs"@),
        ascii_theme: last_value(a, "asciiTheme"@),
        hi_ansi_theme: last_value(a, "hAnsiTheme"@),
        east_asia_theme: last_value(a, "eastAsiaTheme"@),
        cs_theme: last_value(a, "cstheme"@),
        hint: last_value(a, "hint"@),
    }
}

impl RunFonts {
    /// No font set.
    pub fn new() -> (r: RunFonts)
        ensures
            r@ == (RunFontsModel {
                ascii: None,
                hi_ansi: None,
                east_asia: None,
                cs: None,
                ascii_theme: None,
                hi_ansi_theme: None,
                east_asia_theme: None,
                cs_theme: None,
                hint: None,
            }),
    {
        RunFonts {
            ascii: None,
            hi_ansi: None,
            east_asia: None,
            cs: None,
            ascii_theme: None,
            hi_ansi_theme: None,
            east_asia_theme: None,
            cs_theme: None,
            hint: None,
        }
    }
}

/// Reads the attributes of a `w:rFonts` element. It always succeeds.
pub fn read_run_fonts(attributes: &[OwnedAttribute]) -> (r: Result<RunFonts, ReaderError>)
    ensures
        r matches Ok(f) && f@ == run_fonts_of(attributes_view(attributes@)),
{
    let f = RunFonts {
        ascii: last_attribute_value(attributes, "ascii"),
        hi_ansi: last_attribute_value(attributes, "hAnsi"),
        east_asia: last_attribute_value(attributes, "eastAsia"),
        cs: last_attribute_value(attributes, "cs"),
        ascii_theme: last_attribute_value(attributes, "asciiTheme"),
        hi_ansi_theme: last_attribute_value(attributes, "hAnsiTheme"),
        east_asia_theme: last_attribute_value(attributes, "eastAsiaTheme"),
        cs_theme: last_attribute_value(attributes, "cstheme"),
        hint: last_attribute_value(attributes, "hint"),
    };
    Ok(f)
}

/// No two attributes share a local name.
pub open spec fn distinct_names(a: Seq<AttributeModel>) -> bool {
    forall|i: int, j: int|
        0 <= i < a.len() && 0 <= j < a.len() && i != j ==> #[trigger] a[i].name.local_name
            != #[trigger] a[j].name.local_name
}

proof fn lemma_last_value_distinct(a: Seq<AttributeModel>, key: Seq<char>)
    requires
        distinct_names(a),
    ensures
        last_value(a, key) is None <==> (forall|i: int| 0 <= i < a.len() ==> #[trigger] a[i].name.local_name != key),
        forall|i: int| 0 <= i < a.len() && #[trigger] a[i].name.local_name == key ==> last_value(a, key) == Some(a[i].value),
    decreases a.len(),
{
    if a.len() > 0 {
        let init = a.drop_last();
        assert(distinct_names(init)) by {
            assert forall|i: int, j: int|
                0 <= i < init.len() && 0 <= j < init.len() && i != j implies #[trigger] init[i].name.local_name
                != #[trigger] init[j].name.local_name by {
                assert(init[i] == a[i] && init[j] == a[j]);
            }
        }
        lemma_last_value_distinct(init, key);
        assert forall|i: int| 0 <= i < a.len() && #[trigger] a[i].name.local_name == key implies last_value(a, key)
            == Some(a[i].value) by {
            if i < a.len() - 1 {
                assert(init[i] == a[i]);
                assert(a[a.len() - 1].name.local_name != key);
            }
        }
        if forall|i: int| 0 <= i < a.len() ==> #[trigger] a[i].name.local_name != key {
            assert forall|i: int| 0 <= i < init.len() implies #[trigger] init[i].name.local_name != key by {
                assert(init[i] == a[i]);
            }
        }
        if last_value(a, key) is None {
            assert forall|i: int| 0 <= i < a.len() implies #[trigger] a[i].name.local_name != key by {
                if i < a.len() - 1 {
                    assert(init[i] == a[i]);
                }
            }
        }
    }
}

proof fn lemma_last_value_same_set(a1: Seq<AttributeModel>, a2: Seq<AttributeModel>, key: Seq<char>)
    requires
        distinct_names(a1),
        distinct_names(a2),
        forall|x: AttributeModel| a1.contains(x) <==> a2.contains(x),
    ensures
        last_value(a1, key) == last_value(a2, key),
{
    lemma_last_value_distinct(a1, key);
    lemma_last_value_distinct(a2, key);
    if exists|i: int| 0 <= i < a1.len() && #[trigger] a1[i].name.local_name == key {
        let i = choose|i: int| 0 <= i < a1.len() && #[trigger] a1[i].name.local_name == key;
        assert(a1.contains(a1[i]));
        assert(a2.contains(a1[i]));
        let j = choose|j: int| 0 <= j < a2.len() && a2[j] == a1[i];
        assert(a2[j].name.local_name == key);
    } else if exists|j: int| 0 <= j < a2.len() && #[trigger] a2[j].name.local_name == key {
        let j = choose|j: int| 0 <= j < a2.len() && #[trigger] a2[j].name.local_name == key;
        assert(a2.contains(a2[j]));
        assert(a1.contains(a2[j]));
        let i = choose|i: int| 0 <= i < a1.len() && a1[i] == a2[j];
        assert(a1[i].name.local_name == key);
    }
}

/// The fonts read from attributes of distinct local names do not depend on
/// the order in which the attributes are written.
pub proof fn law_run_fonts_order_free(a1: Seq<AttributeModel>, a2: Seq<AttributeModel>)
    requires
        distinct_names(a1),
        distinct_names(a2),
        forall|x: AttributeModel| a1.contains(x) <==> a2.contains(x),
    ensures
        run_fonts_of(a1) == run_fonts_of(a2),
{
    lemma_last_value_same_set(a1, a2, "ascii"@);
    lemma_last_value_same_set(a1, a2, "hAnsi"@);
    lemma_last_value_same_set(a1, a2, "eastAsia"@);
    lemma_last_value_same_set(a1, a2, "cs"@);
    lemma_last_value_same_set(a1, a2, "asciiTheme"@);
    lemma_last_value_same_set(a1, a2, "hAnsiTheme"@);
    lemma_last_value_same_set(a1, a2, "eastAsiaTheme"@);
    lemma_last_value_same_set(a1, a2, "cstheme"@);
    lemma_last_value_same_set(a1, a2, "hint"@);
}

// ---------------------------------------------------------------------------
// Laws
// ---------------------------------------------------------------------------

/// Without attributes no font is set.
pub proof fn law_no_attributes_no_fonts()
    ensures
        run_fonts_of(Seq::empty()) == (RunFontsModel {
            ascii: None,
            hi_ansi: None,
            east_asia: None,
            cs: None,
            ascii_theme: None,
            hi_ansi_theme: None,
            east_asia_theme: None,
            cs_theme: None,
            hint: None,
        }),
{
}

/// One more attribute sets the font its local name is for, to its value,
/// and leaves every other font as it was; an attribute of any other name
/// changes nothing. So each font is the value of the last attribute of its
/// own name, whatever the attributes of other names.
pub proof fn law_one_more_attribute(a: Seq<AttributeModel>, x: AttributeModel)
    ensures
        ({
            let before = run_fonts_of(a);
            let after = run_fonts_of(a.push(x));
            let k = x.name.local_name;
            let v = Some(x.value);
            &&& after.ascii == if k == "ascii"@ { v } else { before.ascii }
            &&& after.hi_ansi == if k == "hAnsi"@ { v } else { before.hi_ansi }
            &&& after.east_asia == if k == "eastAsia"@ { v } else { before.east_asia }
            &&& after.cs == if k == "cs"@ { v } else { before.cs }
            &&& after.ascii_theme == if k == "asciiTheme"@ { v } else { before.ascii_theme }
            &&& after.hi_ansi_theme == if k == "hAnsiTheme"@ { v } else { before.hi_ansi_theme }
            &&& after.east_asia_theme == if k == "eastAsiaTheme"@ { v } else { before.east_asia_theme }
            &&& after.cs_theme == if k == "cstheme"@ { v } else { before.cs_theme }
            &&& after.hint == if k == "hint"@ { v } else { before.hint }
        }),
{
    assert(a.push(x).drop_last() =~= a);
}

} // verus!
