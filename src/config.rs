//! The launcher's configuration items: their defaults, validation against
//! options, merging with stored values, and the effective settings read
//! from them.

use vstd::prelude::*;
use crate::text::{has_prefix, texts};

verus! {

/// A configuration value.
pub enum ConfigValue {
    String(String),
    Integer(i32),
}

pub enum ValueView {
    Text(Seq<char>),
    Int(i32),
}

impl View for ConfigValue {
    type V = ValueView;

    open spec fn view(&self) -> ValueView {
        match self {
            ConfigValue::String(s) => ValueView::Text(s@),
            ConfigValue::Integer(i) => ValueView::Int(*i),
        }
    }
}

/// Two values of the same kind (both text or both integer).
pub open spec fn same_kind(a: ValueView, b: ValueView) -> bool {
    (a is Text && b is Text) || (a is Int && b is Int)
}

impl ConfigValue {
    pub fn duplicate(&self) -> (r: ConfigValue)
        ensures
            r@ == self@,
    {
        match self {
            ConfigValue::String(s) => ConfigValue::String(s.clone()),
            ConfigValue::Integer(i) => ConfigValue::Integer(*i),
        }
    }

    pub fn same_as(&self, other: &ConfigValue) -> (r: bool)
        ensures
            r == (self@ == other@),
    {
        match (self, other) {
            (ConfigValue::String(a), ConfigValue::String(b)) => crate::text::same_text(
                a.as_str(),
                b.as_str(),
            ),
            (ConfigValue::Integer(a), ConfigValue::Integer(b)) => *a == *b,
            _ => false,
        }
    }

    pub fn same_kind_as(&self, other: &ConfigValue) -> (r: bool)
        ensures
            r == same_kind(self@, other@),
    {
        match (self, other) {
            (ConfigValue::String(_), ConfigValue::String(_)) => true,
            (ConfigValue::Integer(_), ConfigValue::Integer(_)) => true,
            _ => false,
        }
    }

    /// The value as text: the string itself, or the integer in decimal.
    pub fn to_display_string(&self) -> (r: String)
        ensures
            r@ == match self@ {
                ValueView::Text(s) => s,
                ValueView::Int(i) => crate::text::signed_decimal_text(i as int),
            },
    {
        match self {
            ConfigValue::String(s) => s.clone(),
            ConfigValue::Integer(i) => crate::text::signed_decimal(*i as i64),
        }
    }
}

pub open spec fn value_views(v: Seq<ConfigValue>) -> Seq<ValueView> {
    v.map_values(|x: ConfigValue| x@)
}

/// One configuration item.
pub struct ConfigItem {
    pub name: String,
    pub description: String,
    pub value: ConfigValue,
    pub default_value: ConfigValue,
    pub options: Option<Vec<ConfigValue>>,
}

pub struct ItemView {
    pub name: Seq<char>,
    pub description: Seq<char>,
    pub value: ValueView,
    pub default_value: ValueView,
    pub options: Option<Seq<ValueView>>,
}

impl View for ConfigItem {
    type V = ItemView;

    open spec fn view(&self) -> ItemView {
        ItemView {
            name: self.name@,
            description: self.description@,
            value: self.value@,
            default_value: self.default_value@,
            options: match self.options {
                Some(o) => Some(value_views(o@)),
                None => None,
            },
        }
    }
}

pub open spec fn item_views(v: Seq<ConfigItem>) -> Seq<ItemView> {
    v.map_values(|x: ConfigItem| x@)
}

/// An item's value after validation: reset to the default where a non-empty
/// option list lacks it, or where it is of another kind than the default.
pub open spec fn normalized_value(i: ItemView) -> ValueView {
    let v = match i.options {
        Some(o) => if o.len() > 0 && !o.contains(i.value) {
            i.default_value
        } else {
            i.value
        },
        None => i.value,
    };
    if same_kind(v, i.default_value) {
        v
    } else {
        i.default_value
    }
}

pub fn copy_values(v: &Vec<ConfigValue>) -> (r: Vec<ConfigValue>)
    ensures
        value_views(r@) == value_views(v@),
{
    let mut out: Vec<ConfigValue> = Vec::new();
    let mut i: usize = 0;
    while i < v.len()
        invariant
            i <= v@.len(),
            value_views(out@) == value_views(v@).subrange(0, i as int),
        decreases v@.len() - i,
    {
        let ghost prev = out@;
        let x = v[i].duplicate();
        out.push(x);
        assert(value_views(out@) =~= value_views(prev).push(x@));
        i = i + 1;
        assert(value_views(out@) =~= value_views(v@).subrange(0, i as int));
    }
    assert(value_views(v@).subrange(0, v@.len() as int) =~= value_views(v@));
    out
}

fn has_value(v: &Vec<ConfigValue>, x: &ConfigValue) -> (r: bool)
    ensures
        r == value_views(v@).contains(x@),
{
    let mut i: usize = 0;
    while i < v.len()
        invariant
            i <= v@.len(),
            forall|j: int| 0 <= j < i ==> v@[j]@ != x@,
        decreases v@.len() - i,
    {
        if v[i].same_as(x) {
            assert(value_views(v@)[i as int] == x@);
            return true;
        }
        i = i + 1;
    }
    assert forall|j: int| 0 <= j < value_views(v@).len() implies value_views(v@)[j] != x@ by {
        assert(value_views(v@)[j] == v@[j]@);
    }
    false
}

impl ConfigItem {
    pub fn duplicate(&self) -> (r: ConfigItem)
        ensures
            r@ == self@,
    {
        ConfigItem {
            name: self.name.clone(),
            description: self.description.clone(),
            value: self.value.duplicate(),
            default_value: self.default_value.duplicate(),
            options: match &self.options {
                Some(o) => Some(copy_values(o)),
                None => None,
            },
        }
    }

    /// Resets the value to the default where the options lack it or its kind
    /// differs from the default's.
    pub fn validate_and_normalize(&mut self)
        ensures
            final(self)@ == (ItemView { value: normalized_value(old(self)@), ..old(self)@ }),
    {
        let reset = match &self.options {
            Some(o) => o.len() > 0 && !has_value(o, &self.value),
            None => false,
        };
        if reset {
            self.value = self.default_value.duplicate();
        }
        if !self.value.same_kind_as(&self.default_value) {
            self.value = self.default_value.duplicate();
        }
    }
}


/// The display language a system locale suggests.
pub open spec fn lang_for_locale(locale: Seq<char>) -> Seq<char> {
    if locale == "zh-CN"@ {
        "zh-CN"@
    } else if locale == "zh-TW"@ || locale == "zh-HK"@ {
        "zh-TW"@
    } else if has_prefix(locale, "es"@) {
        "es"@
    } else if has_prefix(locale, "ja"@) {
        "ja"@
    } else if has_prefix(locale, "ko"@) {
        "ko"@
    } else {
        "en"@
    }
}

pub fn get_default_lang_from_locale(locale: &str) -> (r: &'static str)
    ensures
        r@ == lang_for_locale(locale@),
{
    if crate::text::same_text(locale, "zh-CN") {
        "zh-CN"
    } else if crate::text::same_text(locale, "zh-TW") || crate::text::same_text(locale, "zh-HK") {
        "zh-TW"
    } else if crate::text::starts_with(locale, "es") {
        "es"
    } else if crate::text::starts_with(locale, "ja") {
        "ja"
    } else if crate::text::starts_with(locale, "ko") {
        "ko"
    } else {
        "en"
    }
}

pub open spec fn text_values(v: Seq<Seq<char>>) -> Seq<ValueView> {
    v.map_values(|s: Seq<char>| ValueView::Text(s))
}

/// An item whose value starts at its default.
pub open spec fn fresh_item(
    name: Seq<char>,
    description: Seq<char>,
    default: Seq<char>,
    options: Seq<Seq<char>>,
) -> ItemView {
    ItemView {
        name,
        description,
        value: ValueView::Text(default),
        default_value: ValueView::Text(default),
        options: Some(text_values(options)),
    }
}

/// The configuration items the launcher defines, for a system locale.
pub open spec fn default_items(locale: Seq<char>) -> Seq<ItemView> {
    seq![
        fresh_item(
            "Language"@,
            "The display language of the application."@,
            lang_for_locale(locale),
            seq!["en"@, "zh-CN"@, "zh-TW"@, "es"@, "ja"@, "ko"@],
        ),
        fresh_item(
            "Pip Cache Directory"@,
            "Specifies pip's package cache location. 'App Install Directory' uses a cache within the app's data folder. 'System Default' uses pip's standard cache location."@,
            "App Install Directory"@,
            seq!["System Default"@, "App Install Directory"@],
        ),
        fresh_item(
            "Default Python Version"@,
            "The default Python version to be used."@,
            "3.12"@,
            crate::runtime::known_patches().map_values(|p: crate::runtime::PatchRow| p.0),
        ),
        fresh_item(
            "Pip Index URL"@,
            "Specifies the pip index URL. Select the empty option to use the system's default pip configuration (equivalent to not setting an index URL)."@,
            if locale == "zh-CN"@ {
                "https://mirrors.aliyun.com/pypi/simple/"@
            } else {
                ""@
            },
            seq![
                ""@,
                "https://pypi.org/simple/"@,
                "https://pypi.tuna.tsinghua.edu.cn/simple"@,
                "https://mirrors.aliyun.com/pypi/simple/"@,
                "https://mirrors.ustc.edu.cn/pypi/simple/"@,
                "https://repo.huaweicloud.com/repository/pypi/simple/"@,
                "https://mirrors.cloud.tencent.com/pypi/simple/"@,
            ],
        ),
        fresh_item(
            "Update Method"@,
            "Controls the app's update behavior. 'MANUAL_UPDATE' requires user action, 'AUTO_UPDATE' updates automatically, and 'IGNORE_UPDATE' disables update checks."@,
            "AUTO_UPDATE"@,
            seq!["MANUAL_UPDATE"@, "AUTO_UPDATE"@, "IGNORE_UPDATE"@],
        ),
    ]
}

fn text_options(v: &Vec<&str>) -> (r: Vec<ConfigValue>)
    ensures
        value_views(r@) == text_values(v@.map_values(|s: &str| s@)),
{
    let mut out: Vec<ConfigValue> = Vec::new();
    let mut i: usize = 0;
    while i < v.len()
        invariant
            i <= v@.len(),
            value_views(out@) == text_values(v@.map_values(|s: &str| s@)).subrange(0, i as int),
        decreases v@.len() - i,
    {
        let ghost prev = out@;
        let x = ConfigValue::String(v[i].to_owned());
        out.push(x);
        assert(value_views(out@) =~= value_views(prev).push(x@));
        i = i + 1;
        assert(value_views(out@) =~= text_values(v@.map_values(|s: &str| s@)).subrange(0, i as int));
    }
    assert(text_values(v@.map_values(|s: &str| s@)).subrange(0, v@.len() as int) =~= text_values(
        v@.map_values(|s: &str| s@),
    ));
    out
}

fn make_item(name: &str, description: &str, default: &str, options: Vec<ConfigValue>) -> (r: ConfigItem)
    ensures
        r@ == (ItemView {
            name: name@,
            description: description@,
            value: ValueView::Text(default@),
            default_value: ValueView::Text(default@),
            options: Some(value_views(options@)),
        }),
{
    ConfigItem {
        name: name.to_owned(),
        description: description.to_owned(),
        value: ConfigValue::String(default.to_owned()),
        default_value: ConfigValue::String(default.to_owned()),
        options: Some(options),
    }
}

/// Index of the first item from `i` on named `name`, or the length.
pub open spec fn item_index(items: Seq<ItemView>, name: Seq<char>, i: int) -> int
    decreases items.len() - i,
{
    if i < 0 || i >= items.len() {
        items.len() as int
    } else if items[i].name == name {
        i
    } else {
        item_index(items, name, i + 1)
    }
}

/// Stored values replace the values of the items of the same name; values
/// of unknown names are ignored.
pub open spec fn with_loaded(items: Seq<ItemView>, loaded: Seq<(Seq<char>, ValueView)>) -> Seq<ItemView>
    decreases loaded.len(),
{
    if loaded.len() == 0 {
        items
    } else {
        let prev = with_loaded(items, loaded.drop_last());
        let k = item_index(prev, loaded.last().0, 0);
        if k < prev.len() {
            prev.update(k, ItemView { value: loaded.last().1, ..prev[k] })
        } else {
            prev
        }
    }
}

/// The items after merging with the defaults: exactly one item per default,
/// in the defaults' order; a known item keeps its name and value but takes
/// the default's description, default value and options, and is then
/// validated; a missing item is the default itself.
pub open spec fn merged_items(current: Seq<ItemView>, defaults: Seq<ItemView>) -> Seq<ItemView> {
    Seq::new(
        defaults.len(),
        |i: int|
            {
                let d = defaults[i];
                let k = item_index(current, d.name, 0);
                if k < current.len() {
                    let u = ItemView {
                        description: d.description,
                        default_value: d.default_value,
                        options: d.options,
                        ..current[k]
                    };
                    ItemView { value: normalized_value(u), ..u }
                } else {
                    d
                }
            },
    )
}

/// The launcher's configuration: its items and the file they are kept in.
pub struct AppConfig {
    items: Vec<ConfigItem>,
    config_path: Vec<String>,
}

pub open spec fn loaded_views(v: Seq<(String, ConfigValue)>) -> Seq<(Seq<char>, ValueView)> {
    v.map_values(|p: (String, ConfigValue)| (p.0@, p.1@))
}

fn find_item(items: &Vec<ConfigItem>, name: &str) -> (r: usize)
    ensures
        r == item_index(item_views(items@), name@, 0),
        r <= items@.len(),
{
    let ghost v = item_views(items@);
    let mut i: usize = 0;
    while i < items.len()
        invariant
            v == item_views(items@),
            i <= items@.len(),
            item_index(v, name@, i as int) == item_index(v, name@, 0),
        decreases items@.len() - i,
    {
        if crate::text::same_text(items[i].name.as_str(), name) {
            return i;
        }
        i = i + 1;
    }
    i
}

impl AppConfig {
    pub closed spec fn items_view(&self) -> Seq<ItemView> {
        item_views(self.items@)
    }

    pub closed spec fn path_view(&self) -> Seq<Seq<char>> {
        texts(self.config_path@)
    }

    /// The items the launcher defines, for a system locale.
    pub fn get_default_config_items(locale: &str) -> (r: Vec<ConfigItem>)
        ensures
            item_views(r@) == default_items(locale@),
    {
        let lang = get_default_lang_from_locale(locale);
        let mut items: Vec<ConfigItem> = Vec::new();
        let langs = vec!["en", "zh-CN", "zh-TW", "es", "ja", "ko"];
        let i0 = make_item("Language", "The display language of the application.", lang, text_options(&langs));
        let caches = vec!["System Default", "App Install Directory"];
        let i1 = make_item(
            "Pip Cache Directory",
            "Specifies pip's package cache location. 'App Install Directory' uses a cache within the app's data folder. 'System Default' uses pip's standard cache location.",
            "App Install Directory",
            text_options(&caches),
        );
        let versions = crate::runtime::get_supported_python_versions();
        let mut version_options: Vec<ConfigValue> = Vec::new();
        let mut j: usize = 0;
        while j < versions.len()
            invariant
                j <= versions@.len(),
                value_views(version_options@) == text_values(texts(versions@)).subrange(0, j as int),
            decreases versions@.len() - j,
        {
            let ghost prev = version_options@;
            let x = ConfigValue::String(versions[j].clone());
            version_options.push(x);
            assert(value_views(version_options@) =~= value_views(prev).push(x@));
            j = j + 1;
            assert(value_views(version_options@) =~= text_values(texts(versions@)).subrange(0, j as int));
        }
        assert(text_values(texts(versions@)).subrange(0, versions@.len() as int) =~= text_values(texts(versions@)));
        let i2 = make_item(
            "Default Python Version",
            "The default Python version to be used.",
            "3.12",
            version_options,
        );
        let pip_default = if crate::text::same_text(locale, "zh-CN") {
            "https://mirrors.aliyun.com/pypi/simple/"
        } else {
            ""
        };
        let urls = vec![
            "",
            "https://pypi.org/simple/",
            "https://pypi.tuna.tsinghua.edu.cn/simple",
            "https://mirrors.aliyun.com/pypi/simple/",
            "https://mirrors.ustc.edu.cn/pypi/simple/",
            "https://repo.huaweicloud.com/repository/pypi/simple/",
            "https://mirrors.cloud.tencent.com/pypi/simple/",
        ];
        let i3 = make_item(
            "Pip Index URL",
            "Specifies the pip index URL. Select the empty option to use the system's default pip configuration (equivalent to not setting an index URL).",
            pip_default,
            text_options(&urls),
        );
        let methods = vec!["MANUAL_UPDATE", "AUTO_UPDATE", "IGNORE_UPDATE"];
        let i4 = make_item(
            "Update Method",
            "Controls the app's update behavior. 'MANUAL_UPDATE' requires user action, 'AUTO_UPDATE' updates automatically, and 'IGNORE_UPDATE' disables update checks.",
            "AUTO_UPDATE",
            text_options(&methods),
        );
        proof {
            assert(langs@.map_values(|s: &str| s@) =~= seq!["en"@, "zh-CN"@, "zh-TW"@, "es"@, "ja"@, "ko"@]);
            assert(caches@.map_values(|s: &str| s@) =~= seq!["System Default"@, "App Install Directory"@]);
            assert(urls@.map_values(|s: &str| s@) =~= seq![
                ""@,
                "https://pypi.org/simple/"@,
                "https://pypi.tuna.tsinghua.edu.cn/simple"@,
                "https://mirrors.aliyun.com/pypi/simple/"@,
                "https://mirrors.ustc.edu.cn/pypi/simple/"@,
                "https://repo.huaweicloud.com/repository/pypi/simple/"@,
                "https://mirrors.cloud.tencent.com/pypi/simple/"@,
            ]);
            assert(methods@.map_values(|s: &str| s@) =~= seq!["MANUAL_UPDATE"@, "AUTO_UPDATE"@, "IGNORE_UPDATE"@]);
        }
        items.push(i0);
        items.push(i1);
        items.push(i2);
        items.push(i3);
        items.push(i4);
        assert(item_views(items@) =~= default_items(locale@));
        items
    }

    /// The configuration from the stored values: the defaults, with stored
    /// values of known items applied, merged and validated against the
    /// defaults. It is kept in `app_config.json` under `config_dir`.
    pub fn new(config_dir: &Vec<String>, locale: &str, loaded: &Vec<(String, ConfigValue)>) -> (r: AppConfig)
        ensures
            r.items_view() == merged_items(
                with_loaded(default_items(locale@), loaded_views(loaded@)),
                default_items(locale@),
            ),
            r.path_view() == texts(config_dir@).push("app_config.json"@),
    {
        let mut path = crate::app::copy_texts(config_dir);
        let ghost p0 = path@;
        path.push("app_config.json".to_owned());
        assert(texts(path@) =~= texts(p0).push("app_config.json"@));
        let mut instance = AppConfig { items: Self::get_default_config_items(locale), config_path: path };
        instance.load_values(loaded);
        instance.merge_and_validate_defaults(locale);
        instance
    }

    /// The file the configuration is kept in.
    pub fn config_path(&self) -> (r: Vec<String>)
        ensures
            texts(r@) == self.path_view(),
    {
        crate::app::copy_texts(&self.config_path)
    }

    /// Applies stored values to the items of the same name.
    pub fn load_values(&mut self, loaded: &Vec<(String, ConfigValue)>)
        ensures
            final(self).items_view() == with_loaded(old(self).items_view(), loaded_views(loaded@)),
            final(self).path_view() == old(self).path_view(),
    {
        let ghost start = item_views(self.items@);
        let ghost lv = loaded_views(loaded@);
        let mut i: usize = 0;
        while i < loaded.len()
            invariant
                lv == loaded_views(loaded@),
                lv.len() == loaded@.len(),
                i <= loaded@.len(),
                item_views(self.items@) == with_loaded(start, lv.subrange(0, i as int)),
                self.path_view() == old(self).path_view(),
            decreases loaded@.len() - i,
        {
            assert(lv.subrange(0, i + 1).drop_last() =~= lv.subrange(0, i as int));
            assert(lv.subrange(0, i + 1).last() == (loaded@[i as int].0@, loaded@[i as int].1@));
            let k = find_item(&self.items, loaded[i].0.as_str());
            if k < self.items.len() {
                let ghost before = item_views(self.items@);
                let v = loaded[i].1.duplicate();
                let mut item = self.items[k].duplicate();
                item.value = v;
                self.items.set(k, item);
                assert(item_views(self.items@) =~= before.update(
                    k as int,
                    ItemView { value: v@, ..before[k as int] },
                ));
            }
            i = i + 1;
        }
        assert(lv.subrange(0, lv.len() as int) =~= lv);
    }

    /// Brings the items in line with the defaults: one item per default, in
    /// the defaults' order, known items validated against the default's
    /// options, obsolete items dropped.
    pub fn merge_and_validate_defaults(&mut self, locale: &str)
        ensures
            final(self).items_view() == merged_items(old(self).items_view(), default_items(locale@)),
            final(self).path_view() == old(self).path_view(),
    {
        let defaults = Self::get_default_config_items(locale);
        let ghost cur = item_views(self.items@);
        let ghost dv = item_views(defaults@);
        let mut merged: Vec<ConfigItem> = Vec::new();
        let mut i: usize = 0;
        while i < defaults.len()
            invariant
                cur == item_views(self.items@),
                dv == item_views(defaults@),
                dv.len() == defaults@.len(),
                i <= defaults@.len(),
                item_views(merged@) == merged_items(cur, dv).subrange(0, i as int),
            decreases defaults@.len() - i,
        {
            let d = &defaults[i];
            let k = find_item(&self.items, d.name.as_str());
            let ghost prev = merged@;
            if k < self.items.len() {
                let mut item = self.items[k].duplicate();
                item.description = d.description.clone();
                item.default_value = d.default_value.duplicate();
                item.options = match &d.options {
                    Some(o) => Some(copy_values(o)),
                    None => None,
                };
                item.validate_and_normalize();
                merged.push(item);
            } else {
                merged.push(d.duplicate());
            }
            assert(item_views(merged@) =~= item_views(prev).push(merged_items(cur, dv)[i as int]));
            i = i + 1;
            assert(item_views(merged@) =~= merged_items(cur, dv).subrange(0, i as int));
        }
        assert(merged_items(cur, dv).subrange(0, dv.len() as int) =~= merged_items(cur, dv));
        self.items = merged;
    }

    /// The values to store: each item's name and value.
    pub fn values_to_save(&self) -> (r: Vec<(String, ConfigValue)>)
        ensures
            loaded_views(r@) == self.items_view().map_values(|i: ItemView| (i.name, i.value)),
    {
        let mut out: Vec<(String, ConfigValue)> = Vec::new();
        let mut i: usize = 0;
        while i < self.items.len()
            invariant
                i <= self.items@.len(),
                loaded_views(out@) == self.items_view().map_values(|i: ItemView| (i.name, i.value)).subrange(0, i as int),
            decreases self.items@.len() - i,
        {
            let ghost prev = out@;
            let x = (self.items[i].name.clone(), self.items[i].value.duplicate());
            out.push(x);
            assert(loaded_views(out@) =~= loaded_views(prev).push((x.0@, x.1@)));
            i = i + 1;
            assert(loaded_views(out@) =~= self.items_view().map_values(|i: ItemView| (i.name, i.value)).subrange(0, i as int));
        }
        assert(self.items_view().map_values(|i: ItemView| (i.name, i.value)).subrange(0, self.items@.len() as int) =~= self.items_view().map_values(|i: ItemView| (i.name, i.value)));
        out
    }

    /// The value of the item named `name`.
    pub fn get_item_value(&self, name: &str) -> (r: Option<ConfigValue>)
        ensures
            match r {
                Some(v) => item_index(self.items_view(), name@, 0) < self.items_view().len() && v@
                    == self.items_view()[item_index(self.items_view(), name@, 0)].value,
                None => item_index(self.items_view(), name@, 0) == self.items_view().len(),
            },
    {
        let k = find_item(&self.items, name);
        assert(self.items_view().len() == self.items@.len());
        if k < self.items.len() {
            assert(self.items_view()[k as int] == self.items@[k as int]@);
            Some(self.items[k].value.duplicate())
        } else {
            None
        }
    }

    /// Sets an item's value where it is of the default's kind, then validates
    /// it; an unknown name or a value of another kind changes nothing.
    pub fn update_item_value(&mut self, name: &str, new_value: ConfigValue) -> (r: UpdateOutcome)
        ensures
            final(self).path_view() == old(self).path_view(),
            ({
                let items = old(self).items_view();
                let k = item_index(items, name@, 0);
                if k == items.len() {
                    r is NotFound && final(self).items_view() == items
                } else if !same_kind(new_value@, items[k].default_value) {
                    r is TypeMismatch && final(self).items_view() == items
                } else {
                    r is Updated && final(self).items_view() == items.update(
                        k,
                        ItemView {
                            value: normalized_value(ItemView { value: new_value@, ..items[k] }),
                            ..items[k]
                        },
                    )
                }
            }),
    {
        let k = find_item(&self.items, name);
        assert(self.items_view().len() == self.items@.len());
        if k >= self.items.len() {
            return UpdateOutcome::NotFound;
        }
        if !new_value.same_kind_as(&self.items[k].default_value) {
            return UpdateOutcome::TypeMismatch;
        }
        let ghost before = item_views(self.items@);
        let mut item = self.items[k].duplicate();
        item.value = new_value;
        item.validate_and_normalize();
        self.items.set(k, item);
        assert(item_views(self.items@) =~= before.update(
            k as int,
            ItemView {
                value: normalized_value(ItemView { value: new_value@, ..before[k as int] }),
                ..before[k as int]
            },
        ));
        UpdateOutcome::Updated
    }

    /// The pip cache directory in effect: the launcher's own cache
    /// (`app_cache_dir`) for "App Install Directory", else pip's default.
    pub fn get_effective_pip_cache_dir(&self, app_cache_dir: &Vec<String>) -> (r: Option<Vec<String>>)
        ensures
            match r {
                Some(d) => texts(d@) == texts(app_cache_dir@) && text_setting(self.items_view(), "Pip Cache Directory"@) == Some("App Install Directory"@),
                None => text_setting(self.items_view(), "Pip Cache Directory"@) != Some("App Install Directory"@),
            },
    {
        match self.get_item_value("Pip Cache Directory") {
            Some(ConfigValue::String(v)) => {
                if crate::text::same_text(v.as_str(), "App Install Directory") {
                    Some(crate::app::copy_texts(app_cache_dir))
                } else {
                    None
                }
            },
            _ => None,
        }
    }

    /// The package index in effect: the configured URL, where it is a
    /// non-empty text.
    pub fn get_effective_pip_index_url(&self) -> (r: Option<String>)
        ensures
            crate::version::opt_text(r) == match text_setting(self.items_view(), "Pip Index URL"@) {
                Some(u) => if u.len() > 0 {
                    Some(u)
                } else {
                    None
                },
                None => None,
            },
    {
        match self.get_item_value("Pip Index URL") {
            Some(ConfigValue::String(v)) => {
                if v.unicode_len() > 0 {
                    Some(v)
                } else {
                    None
                }
            },
            _ => None,
        }
    }

    /// The update method in effect: `AUTO_UPDATE` or `IGNORE_UPDATE` where
    /// configured, else `MANUAL_UPDATE`.
    pub fn get_effective_update_method(&self) -> (r: &'static str)
        ensures
            r@ == match text_setting(self.items_view(), "Update Method"@) {
                Some(m) => if m == "AUTO_UPDATE"@ {
                    "AUTO_UPDATE"@
                } else if m == "IGNORE_UPDATE"@ {
                    "IGNORE_UPDATE"@
                } else {
                    "MANUAL_UPDATE"@
                },
                None => "MANUAL_UPDATE"@,
            },
    {
        match self.get_item_value("Update Method") {
            Some(ConfigValue::String(v)) => {
                if crate::text::same_text(v.as_str(), "AUTO_UPDATE") {
                    "AUTO_UPDATE"
                } else if crate::text::same_text(v.as_str(), "IGNORE_UPDATE") {
                    "IGNORE_UPDATE"
                } else {
                    "MANUAL_UPDATE"
                }
            },
            _ => "MANUAL_UPDATE",
        }
    }

    /// The display language in effect: the configured one where it is a
    /// supported language, else the one the system locale suggests.
    pub fn get_effective_lang(&self, locale: &str) -> (r: &'static str)
        ensures
            r@ == match text_setting(self.items_view(), "Language"@) {
                Some(l) => if supported_lang(l) {
                    l
                } else {
                    lang_for_locale(locale@)
                },
                None => lang_for_locale(locale@),
            },
    {
        match self.get_item_value("Language") {
            Some(ConfigValue::String(v)) => {
                let s = v.as_str();
                if crate::text::same_text(s, "en") {
                    "en"
                } else if crate::text::same_text(s, "zh-CN") {
                    "zh-CN"
                } else if crate::text::same_text(s, "zh-TW") {
                    "zh-TW"
                } else if crate::text::same_text(s, "es") {
                    "es"
                } else if crate::text::same_text(s, "ja") {
                    "ja"
                } else if crate::text::same_text(s, "ko") {
                    "ko"
                } else {
                    get_default_lang_from_locale(locale)
                }
            },
            _ => get_default_lang_from_locale(locale),
        }
    }
}

impl AppConfig {
    /// All items, ordered by name.
    pub fn get_all_items_vec(&self) -> (r: Vec<ConfigItem>)
        ensures
            item_views(r@).to_multiset() == self.items_view().to_multiset(),
            forall|i: int, j: int|
                0 <= i < j < r@.len() ==> !crate::version::text_less(
                    (#[trigger] r@[j]).name@,
                    (#[trigger] r@[i]).name@,
                ),
    {
        let ghost all = self.items_view();
        let mut out: Vec<ConfigItem> = Vec::new();
        let mut t: usize = 0;
        assert(item_views(out@) =~= all.subrange(0, 0));
        while t < self.items.len()
            invariant
                all == self.items_view(),
                all == item_views(self.items@),
                t <= self.items@.len(),
                item_views(out@).to_multiset() == all.subrange(0, t as int).to_multiset(),
                forall|i: int, j: int|
                    0 <= i < j < out@.len() ==> !crate::version::text_less(
                        (#[trigger] out@[j]).name@,
                        (#[trigger] out@[i]).name@,
                    ),
            decreases self.items@.len() - t,
        {
            let x = self.items[t].duplicate();
            let mut p: usize = 0;
            while p < out.len() && !crate::version::text_less_exec(x.name.as_str(), out[p].name.as_str())
                invariant
                    p <= out@.len(),
                    forall|q: int| 0 <= q < p ==> !crate::version::text_less(x.name@, #[trigger] out@[q].name@),
                decreases out@.len() - p,
            {
                p = p + 1;
            }
            let ghost before = out@;
            out.insert(p, x);
            proof {
                assert(item_views(out@) =~= item_views(before).insert(p as int, x@));
                vstd::seq_lib::to_multiset_insert(item_views(before), p as int, x@);
                assert(all.subrange(0, t + 1) =~= all.subrange(0, t as int).push(x@));
                vstd::seq_lib::to_multiset_build(all.subrange(0, t as int), x@);
                assert forall|i: int, j: int| 0 <= i < j < out@.len() implies !crate::version::text_less(
                    (#[trigger] out@[j]).name@,
                    (#[trigger] out@[i]).name@,
                ) by {
                    if j == p {
                        assert(out@[i] == before[i]);
                    } else if i == p {
                        assert(out@[j] == before[j - 1]);
                        let a = before[j - 1].name@;
                        let b = before[p as int].name@;
                        crate::version::lemma_text_order(a, b, x.name@);
                        crate::version::lemma_text_order(x.name@, b, a);
                        crate::version::lemma_text_order(b, x.name@, a);
                        crate::version::lemma_text_order(a, x.name@, b);
                    } else {
                        let si = if i < p { i } else { i - 1 };
                        let sj = if j < p { j } else { j - 1 };
                        assert(out@[i] == before[si]);
                        assert(out@[j] == before[sj]);
                    }
                }
            }
            t = t + 1;
        }
        assert(all.subrange(0, all.len() as int) =~= all);
        out
    }

    /// How the pip cache variable follows the configuration: set to the
    /// launcher's cache for "App Install Directory", removed for "System
    /// Default", left alone otherwise.
    pub fn update_pip_cache_env_var_from_config(&self, app_cache_dir: &str) -> (r: EnvAction)
        ensures
            match text_setting(self.items_view(), "Pip Cache Directory"@) {
                Some(v) => if v == "App Install Directory"@ {
                    r matches EnvAction::Assign(d) && d@ == app_cache_dir@
                } else if v == "System Default"@ {
                    r is Remove
                } else {
                    r is Keep
                },
                None => r is Keep,
            },
    {
        match self.get_item_value("Pip Cache Directory") {
            Some(ConfigValue::String(v)) => {
                if crate::text::same_text(v.as_str(), "App Install Directory") {
                    EnvAction::Assign(app_cache_dir.to_owned())
                } else if crate::text::same_text(v.as_str(), "System Default") {
                    EnvAction::Remove
                } else {
                    EnvAction::Keep
                }
            },
            _ => EnvAction::Keep,
        }
    }

    /// How the pip index variable follows the configuration: removed for an
    /// empty URL, set to any other URL, left alone where the item is missing
    /// or not text.
    pub fn update_pip_index_url_env_var_from_config(&self) -> (r: EnvAction)
        ensures
            match text_setting(self.items_view(), "Pip Index URL"@) {
                Some(v) => if v.len() == 0 {
                    r is Remove
                } else {
                    r matches EnvAction::Assign(u) && u@ == v
                },
                None => r is Keep,
            },
    {
        match self.get_item_value("Pip Index URL") {
            Some(ConfigValue::String(v)) => {
                if v.unicode_len() == 0 {
                    EnvAction::Remove
                } else {
                    EnvAction::Assign(v)
                }
            },
            _ => EnvAction::Keep,
        }
    }
}

/// A change to an environment variable of the launcher's own process.
pub enum EnvAction {
    Assign(String),
    Remove,
    Keep,
}

/// The language for messages: the configuration's effective language, or
/// English before the configuration is loaded.
pub fn get_locale(config: Option<&AppConfig>, system_locale: &str) -> (r: &'static str)
    ensures
        match config {
            Some(c) => r@ == match text_setting(c.items_view(), "Language"@) {
                Some(l) => if supported_lang(l) {
                    l
                } else {
                    lang_for_locale(system_locale@)
                },
                None => lang_for_locale(system_locale@),
            },
            None => r@ == "en"@,
        },
{
    match config {
        Some(c) => c.get_effective_lang(system_locale),
        None => "en",
    }
}

/// Relies on `sys_locale::get_locale`: the system's preferred locale, where
/// one can be read; it depends on the machine.
#[verifier::external_body]
fn system_locale() -> (r: Option<String>) {
    sys_locale::get_locale()
}

/// `s` with every `_` written as `-`.
pub open spec fn dashed(s: Seq<char>) -> Seq<char> {
    s.map_values(|c: char| if c == '_' { '-' } else { c })
}

/// A locale tag with `_` written as `-`, or `en-US` where none was read.
pub fn normalize_locale(locale: Option<&str>) -> (r: String)
    ensures
        r@ == match locale {
            Some(l) => dashed(l@),
            None => "en-US"@,
        },
{
    match locale {
        None => "en-US".to_owned(),
        Some(l) => {
            let n = l.unicode_len();
            let mut out = String::new();
            let mut i: usize = 0;
            while i < n
                invariant
                    n == l@.len(),
                    i <= n,
                    out@ == dashed(l@).subrange(0, i as int),
                decreases n - i,
            {
                let c = l.get_char(i);
                crate::text::push_char(&mut out, if c == '_' { '-' } else { c });
                i = i + 1;
                assert(out@ =~= dashed(l@).subrange(0, i as int));
            }
            assert(dashed(l@).subrange(0, n as int) =~= dashed(l@));
            out
        },
    }
}

/// The system locale with `_` written as `-`, `en-US` where none is known.
pub fn get_default_locale() -> (r: String)
    ensures
        r@ == "en-US"@ || exists|x: Seq<char>| r@ == #[trigger] dashed(x),
{
    let l = system_locale();
    match &l {
        Some(s) => normalize_locale(Some(s.as_str())),
        None => normalize_locale(None),
    }
}

proof fn lemma_item_index_found(items: Seq<ItemView>, name: Seq<char>, i: int)
    requires
        0 <= i <= items.len(),
    ensures
        i <= item_index(items, name, i) <= items.len(),
        item_index(items, name, i) < items.len() ==> items[item_index(items, name, i)].name == name,
    decreases items.len() - i,
{
    if i < items.len() && items[i].name != name {
        lemma_item_index_found(items, name, i + 1);
    }
}

proof fn lemma_with_loaded_len(items: Seq<ItemView>, loaded: Seq<(Seq<char>, ValueView)>)
    ensures
        with_loaded(items, loaded).len() == items.len(),
    decreases loaded.len(),
{
    if loaded.len() > 0 {
        lemma_with_loaded_len(items, loaded.drop_last());
        let prev = with_loaded(items, loaded.drop_last());
        lemma_item_index_found(prev, loaded.last().0, 0);
    }
}

/// Every defined item's default value is one of its (non-empty) options.
proof fn lemma_defaults_in_options(locale: Seq<char>)
    ensures
        default_items(locale).len() == 5,
        forall|i: int|
            0 <= i < 5 ==> {
                let d = #[trigger] default_items(locale)[i];
                &&& d.options is Some
                &&& d.options->0.len() > 0
                &&& d.options->0.contains(d.default_value)
                &&& d.default_value is Text
            },
{
    let ds = default_items(locale);
    let langs = text_values(seq!["en"@, "zh-CN"@, "zh-TW"@, "es"@, "ja"@, "ko"@]);
    let l = lang_for_locale(locale);
    let j: int = if l == "en"@ { 0 } else if l == "zh-CN"@ { 1 } else if l == "zh-TW"@ { 2 } else if l == "es"@ { 3 } else if l == "ja"@ { 4 } else { 5 };
    assert(langs[j] == ValueView::Text(l));
    assert(ds[0].options->0.contains(ds[0].default_value));
    let caches = text_values(seq!["System Default"@, "App Install Directory"@]);
    assert(caches[1] == ValueView::Text("App Install Directory"@));
    assert(ds[1].options->0.contains(ds[1].default_value));
    let lines = crate::runtime::known_patches().map_values(|p: crate::runtime::PatchRow| p.0);
    assert(lines[1] == "3.12"@);
    assert(text_values(lines)[1] == ValueView::Text("3.12"@));
    assert(ds[2].options->0.contains(ds[2].default_value));
    let urls = text_values(seq![
        ""@,
        "https://pypi.org/simple/"@,
        "https://pypi.tuna.tsinghua.edu.cn/simple"@,
        "https://mirrors.aliyun.com/pypi/simple/"@,
        "https://mirrors.ustc.edu.cn/pypi/simple/"@,
        "https://repo.huaweicloud.com/repository/pypi/simple/"@,
        "https://mirrors.cloud.tencent.com/pypi/simple/"@,
    ]);
    assert(urls[0] == ValueView::Text(""@));
    assert(urls[3] == ValueView::Text("https://mirrors.aliyun.com/pypi/simple/"@));
    assert(ds[3].options->0.contains(ds[3].default_value));
    let methods = text_values(seq!["MANUAL_UPDATE"@, "AUTO_UPDATE"@, "IGNORE_UPDATE"@]);
    assert(methods[1] == ValueView::Text("AUTO_UPDATE"@));
    assert(ds[4].options->0.contains(ds[4].default_value));
}

/// A configuration built by `AppConfig::new` holds exactly the five defined
/// items, in their order, each with the defined options and a value that is
/// one of those options, whatever values were stored.
pub proof fn lemma_config_defaults(locale: Seq<char>, loaded: Seq<(Seq<char>, ValueView)>)
    ensures
        ({
            let ds = default_items(locale);
            let m = merged_items(with_loaded(ds, loaded), ds);
            &&& m.len() == 5
            &&& forall|i: int| 0 <= i < 5 ==> (#[trigger] m[i]).name == ds[i].name
                && m[i].options == ds[i].options && m[i].default_value == ds[i].default_value
                && m[i].options->0.contains(m[i].value)
        }),
{
    let ds = default_items(locale);
    let cur = with_loaded(ds, loaded);
    let m = merged_items(cur, ds);
    lemma_defaults_in_options(locale);
    lemma_with_loaded_len(ds, loaded);
    assert forall|i: int| 0 <= i < 5 implies (#[trigger] m[i]).name == ds[i].name
        && m[i].options == ds[i].options && m[i].default_value == ds[i].default_value
        && m[i].options->0.contains(m[i].value) by {
        let d = ds[i];
        assert(d == default_items(locale)[i]);
        lemma_item_index_found(cur, d.name, 0);
    }
}

/// What an attempt to change a configuration item came to.
#[derive(Debug)]
pub enum UpdateOutcome {
    Updated,
    /// The value is of another kind than the item's default.
    TypeMismatch,
    /// No item has that name.
    NotFound,
}

/// The text value of the item named `name`, where there is one and it is text.
pub open spec fn text_setting(items: Seq<ItemView>, name: Seq<char>) -> Option<Seq<char>> {
    let k = item_index(items, name, 0);
    if k < items.len() {
        match items[k].value {
            ValueView::Text(s) => Some(s),
            ValueView::Int(_) => None,
        }
    } else {
        None
    }
}

pub open spec fn supported_lang(l: Seq<char>) -> bool {
    l == "en"@ || l == "zh-CN"@ || l == "zh-TW"@ || l == "es"@ || l == "ja"@ || l == "ko"@
}

} // verus!
