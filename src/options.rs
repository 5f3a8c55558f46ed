use vstd::prelude::*;

use crate::json::{entries_view, json_object_entries, parse_json_object, JsonScalar, ScalarView};

verus! {

/// The resolved options of one file's transform.
pub struct PluginOptions {
    /// Name of the attribute written on elements.
    pub custom_property: String,
    /// Joins the segments of an identifier.
    pub custom_separator: String,
    /// When non-empty, joins the directory segments into a single segment.
    pub slash_char: String,
    /// How many trailing directories (nearest to the file) to include.
    pub dir_level: usize,
    /// Include the names of the enclosing elements.
    pub add_module_class_names: bool,
    /// Put in front of the finished identifier.
    pub prefix: String,
    /// Leave out the sibling ordinal.
    pub ignore_tree_depth: bool,
    /// Leave out the element's own name.
    pub ignore_node_names: bool,
    /// Only inject on elements that are the first child of their parent.
    pub first_child_only: bool,
    /// Leave out the file stem.
    pub omit_file_name: bool,
    /// When present, only identifiers that contain this text are injected.
    pub match_pattern: Option<String>,
}

/// The mathematical model of [`PluginOptions`].
pub struct OptionsView {
    pub custom_property: Seq<char>,
    pub custom_separator: Seq<char>,
    pub slash_char: Seq<char>,
    pub dir_level: nat,
    pub add_module_class_names: bool,
    pub prefix: Seq<char>,
    pub ignore_tree_depth: bool,
    pub ignore_node_names: bool,
    pub first_child_only: bool,
    pub omit_file_name: bool,
    pub match_pattern: Option<Seq<char>>,
}

pub open spec fn opt_string_view(o: Option<String>) -> Option<Seq<char>> {
    match o {
        Some(s) => Some(s@),
        None => None,
    }
}

impl View for PluginOptions {
    type V = OptionsView;

    open spec fn view(&self) -> OptionsView {
        OptionsView {
            custom_property: self.custom_property@,
            custom_separator: self.custom_separator@,
            slash_char: self.slash_char@,
            dir_level: self.dir_level as nat,
            add_module_class_names: self.add_module_class_names,
            prefix: self.prefix@,
            ignore_tree_depth: self.ignore_tree_depth,
            ignore_node_names: self.ignore_node_names,
            first_child_only: self.first_child_only,
            omit_file_name: self.omit_file_name,
            match_pattern: opt_string_view(self.match_pattern),
        }
    }
}

pub open spec fn default_custom_property_spec() -> Seq<char> {
    seq!['d', 'a', 't', 'a', '-', 'i', 'd']
}

pub open spec fn default_custom_separator_spec() -> Seq<char> {
    seq!['_']
}

/// The all-defaults options.
pub open spec fn default_options() -> OptionsView {
    OptionsView {
        custom_property: default_custom_property_spec(),
        custom_separator: default_custom_separator_spec(),
        slash_char: Seq::empty(),
        dir_level: 1,
        add_module_class_names: false,
        prefix: Seq::empty(),
        ignore_tree_depth: false,
        ignore_node_names: false,
        first_child_only: false,
        omit_file_name: false,
        match_pattern: None,
    }
}

/// The default attribute name, `data-id`.
pub fn default_custom_property() -> (r: String)
    ensures
        r@ == default_custom_property_spec(),
{
    proof {
        reveal_strlit("data-id");
    }
    String::from_str("data-id")
}

/// The default separator, `_`.
pub fn default_custom_separator() -> (r: String)
    ensures
        r@ == default_custom_separator_spec(),
{
    proof {
        reveal_strlit("_");
    }
    String::from_str("_")
}

/// The default number of directories, one.
pub fn default_dir_level() -> (r: usize)
    ensures
        r == 1,
{
    1
}

impl Clone for PluginOptions {
    fn clone(&self) -> (r: PluginOptions)
        ensures
            r@ == self@,
    {
        PluginOptions {
            custom_property: self.custom_property.clone(),
            custom_separator: self.custom_separator.clone(),
            slash_char: self.slash_char.clone(),
            dir_level: self.dir_level,
            add_module_class_names: self.add_module_class_names,
            prefix: self.prefix.clone(),
            ignore_tree_depth: self.ignore_tree_depth,
            ignore_node_names: self.ignore_node_names,
            first_child_only: self.first_child_only,
            omit_file_name: self.omit_file_name,
            match_pattern: match &self.match_pattern {
                Some(p) => Some(p.clone()),
                None => None,
            },
        }
    }
}

impl Default for PluginOptions {
    fn default() -> (r: PluginOptions)
        ensures
            r@ == default_options(),
    {
        PluginOptions {
            custom_property: default_custom_property(),
            custom_separator: default_custom_separator(),
            slash_char: String::new(),
            dir_level: default_dir_level(),
            add_module_class_names: false,
            prefix: String::new(),
            ignore_tree_depth: false,
            ignore_node_names: false,
            first_child_only: false,
            omit_file_name: false,
            match_pattern: None,
        }
    }
}

/// The value of the last entry called `key`, if any.
pub open spec fn lookup(es: Seq<(Seq<char>, ScalarView)>, key: Seq<char>) -> Option<ScalarView>
    decreases es.len(),
{
    if es.len() == 0 {
        None
    } else if es.last().0 == key {
        Some(es.last().1)
    } else {
        lookup(es.drop_last(), key)
    }
}

/// A text option: `None` when the value has the wrong shape.
pub open spec fn field_text(v: Option<ScalarView>, default: Seq<char>) -> Option<Seq<char>> {
    match v {
        None => Some(default),
        Some(ScalarView::Str(s)) => Some(s),
        _ => None,
    }
}

/// A flag option, off by default: `None` when the value has the wrong shape.
pub open spec fn field_flag(v: Option<ScalarView>) -> Option<bool> {
    match v {
        None => Some(false),
        Some(ScalarView::Bool(b)) => Some(b),
        _ => None,
    }
}

/// The directory count: `None` when the value is no integer that fits.
pub open spec fn field_level(v: Option<ScalarView>) -> Option<nat> {
    match v {
        None => Some(1),
        Some(ScalarView::UInt(u)) => if u <= usize::MAX {
            Some(u as nat)
        } else {
            None
        },
        _ => None,
    }
}

/// The optional pattern: absent or null is no pattern.
pub open spec fn field_pattern(v: Option<ScalarView>) -> Option<Option<Seq<char>>> {
    match v {
        None => Some(None),
        Some(ScalarView::Null) => Some(None),
        Some(ScalarView::Str(s)) => Some(Some(s)),
        _ => None,
    }
}

/// The options that the entries of a JSON object give, each missing one
/// taking its default; `None` when any recognised entry has the wrong shape.
pub open spec fn decode(es: Seq<(Seq<char>, ScalarView)>) -> Option<OptionsView> {
    let custom_property = field_text(lookup(es, "customProperty"@), default_custom_property_spec());
    let custom_separator = field_text(lookup(es, "customSeparator"@), default_custom_separator_spec());
    let slash_char = field_text(lookup(es, "slashChar"@), Seq::empty());
    let dir_level = field_level(lookup(es, "dirLevel"@));
    let add_module_class_names = field_flag(lookup(es, "addModuleClassNames"@));
    let prefix = field_text(lookup(es, "prefix"@), Seq::empty());
    let ignore_tree_depth = field_flag(lookup(es, "ignoreTreeDepth"@));
    let ignore_node_names = field_flag(lookup(es, "ignoreNodeNames"@));
    let first_child_only = field_flag(lookup(es, "firstChildOnly"@));
    let omit_file_name = field_flag(lookup(es, "omitFileName"@));
    let match_pattern = field_pattern(lookup(es, "match"@));
    if custom_property is Some && custom_separator is Some && slash_char is Some && dir_level is Some
        && add_module_class_names is Some && prefix is Some && ignore_tree_depth is Some
        && ignore_node_names is Some && first_child_only is Some && omit_file_name is Some
        && match_pattern is Some {
        Some(
            OptionsView {
                custom_property: custom_property.unwrap(),
                custom_separator: custom_separator.unwrap(),
                slash_char: slash_char.unwrap(),
                dir_level: dir_level.unwrap(),
                add_module_class_names: add_module_class_names.unwrap(),
                prefix: prefix.unwrap(),
                ignore_tree_depth: ignore_tree_depth.unwrap(),
                ignore_node_names: ignore_node_names.unwrap(),
                first_child_only: first_child_only.unwrap(),
                omit_file_name: omit_file_name.unwrap(),
                match_pattern: match_pattern.unwrap(),
            },
        )
    } else {
        None
    }
}

/// Whether the raw payload is given and cannot be decoded.
pub open spec fn undecodable(raw: Seq<char>) -> bool {
    match json_object_entries(raw) {
        None => true,
        Some(es) => decode(es) is None,
    }
}

/// The options that a raw payload resolves to: the defaults when it is
/// absent or cannot be decoded.
pub open spec fn resolved(raw: Option<Seq<char>>) -> OptionsView {
    match raw {
        None => default_options(),
        Some(t) => match json_object_entries(t) {
            Some(es) => match decode(es) {
                Some(o) => o,
                None => default_options(),
            },
            None => default_options(),
        },
    }
}

fn find_entry(es: &Vec<(String, JsonScalar)>, key: &str) -> (r: Option<usize>)
    ensures
        match r {
            Some(i) => i < es.len() && lookup(entries_view(es@), key@) == Some(
                entries_view(es@)[i as int].1,
            ),
            None => lookup(entries_view(es@), key@) is None,
        },
{
    let k = String::from_str(key);
    let mut i: usize = es.len();
    assert(entries_view(es@).take(es.len() as int) =~= entries_view(es@));
    while i > 0
        invariant
            i <= es.len(),
            k@ == key@,
            lookup(entries_view(es@), key@) == lookup(entries_view(es@).take(i as int), key@),
        decreases i,
    {
        assert(entries_view(es@).take(i as int).drop_last() =~= entries_view(es@).take(i - 1));
        if es[i - 1].0 == k {
            return Some(i - 1);
        }
        i = i - 1;
    }
    None
}

fn read_text(es: &Vec<(String, JsonScalar)>, key: &str, default: String) -> (r: Option<String>)
    ensures
        opt_string_view(r) == field_text(lookup(entries_view(es@), key@), default@),
{
    match find_entry(es, key) {
        None => Some(default),
        Some(i) => match &es[i].1 {
            JsonScalar::Str(s) => Some(s.clone()),
            _ => None,
        },
    }
}

fn read_flag(es: &Vec<(String, JsonScalar)>, key: &str) -> (r: Option<bool>)
    ensures
        r == field_flag(lookup(entries_view(es@), key@)),
{
    match find_entry(es, key) {
        None => Some(false),
        Some(i) => match &es[i].1 {
            JsonScalar::Bool(b) => Some(*b),
            _ => None,
        },
    }
}

fn read_level(es: &Vec<(String, JsonScalar)>, key: &str) -> (r: Option<usize>)
    ensures
        match r {
            Some(n) => field_level(lookup(entries_view(es@), key@)) == Some(n as nat),
            None => field_level(lookup(entries_view(es@), key@)) is None,
        },
{
    match find_entry(es, key) {
        None => Some(default_dir_level()),
        Some(i) => match &es[i].1 {
            JsonScalar::UInt(u) => if *u <= usize::MAX as u64 {
                Some(*u as usize)
            } else {
                None
            },
            _ => None,
        },
    }
}

fn read_pattern(es: &Vec<(String, JsonScalar)>, key: &str) -> (r: Option<Option<String>>)
    ensures
        match r {
            Some(p) => field_pattern(lookup(entries_view(es@), key@)) == Some(opt_string_view(p)),
            None => field_pattern(lookup(entries_view(es@), key@)) is None,
        },
{
    match find_entry(es, key) {
        None => Some(None),
        Some(i) => match &es[i].1 {
            JsonScalar::Null => Some(None),
            JsonScalar::Str(s) => Some(Some(s.clone())),
            _ => None,
        },
    }
}

/// Decodes the options from the entries of a JSON object.
pub fn decode_entries(es: &Vec<(String, JsonScalar)>) -> (r: Option<PluginOptions>)
    ensures
        match r {
            Some(o) => decode(entries_view(es@)) == Some(o@),
            None => decode(entries_view(es@)) is None,
        },
{
    let custom_property = read_text(es, "customProperty", default_custom_property());
    let custom_separator = read_text(es, "customSeparator", default_custom_separator());
    let slash_char = read_text(es, "slashChar", String::new());
    let dir_level = read_level(es, "dirLevel");
    let add_module_class_names = read_flag(es, "addModuleClassNames");
    let prefix = read_text(es, "prefix", String::new());
    let ignore_tree_depth = read_flag(es, "ignoreTreeDepth");
    let ignore_node_names = read_flag(es, "ignoreNodeNames");
    let first_child_only = read_flag(es, "firstChildOnly");
    let omit_file_name = read_flag(es, "omitFileName");
    let match_pattern = read_pattern(es, "match");
    match (custom_property, custom_separator, slash_char, dir_level, prefix, match_pattern) {
        (Some(custom_property), Some(custom_separator), Some(slash_char), Some(dir_level), Some(prefix), Some(match_pattern)) => {
            match (add_module_class_names, ignore_tree_depth, ignore_node_names, first_child_only, omit_file_name) {
                (Some(add_module_class_names), Some(ignore_tree_depth), Some(ignore_node_names), Some(first_child_only), Some(omit_file_name)) => {
                    Some(PluginOptions {
                        custom_property,
                        custom_separator,
                        slash_char,
                        dir_level,
                        add_module_class_names,
                        prefix,
                        ignore_tree_depth,
                        ignore_node_names,
                        first_child_only,
                        omit_file_name,
                        match_pattern,
                    })
                },
                _ => None,
            }
        },
        _ => None,
    }
}

/// Resolves the raw payload into complete options: absent or undecodable,
/// it gives the defaults. The flag says whether decoding failed.
pub fn resolve_options(raw: Option<&str>) -> (r: (PluginOptions, bool))
    ensures
        r.0@ == resolved(opt_str_view(raw)),
        r.1 == (raw is Some && undecodable(raw.unwrap()@)),
{
    match raw {
        None => (PluginOptions::default(), false),
        Some(text) => match parse_json_object(text) {
            None => (PluginOptions::default(), true),
            Some(es) => match decode_entries(&es) {
                Some(o) => (o, false),
                None => (PluginOptions::default(), true),
            },
        },
    }
}

pub open spec fn opt_str_view(o: Option<&str>) -> Option<Seq<char>> {
    match o {
        Some(s) => Some(s@),
        None => None,
    }
}

} // verus!
