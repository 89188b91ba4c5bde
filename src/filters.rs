use vstd::prelude::*;

use crate::config::{FilterListConfig, FilterListType};
use crate::error::FilterError;
use crate::text::{
    chars_of, nonempty, split, split_chars, str_eq, string_of, trim, trim_chars,
    Separator,
};
use crate::utils::TimeUtils;

verus! {

/// What a parsed rule asks for.
#[derive(Clone, Copy, PartialEq, Eq, Debug)]
pub enum RuleType {
    Block,
    Allow,
    Comment,
    Invalid,
}

/// One rule read from a filter list.
#[derive(Debug)]
pub struct ParsedRule {
    pub pattern: String,
    pub rule_type: RuleType,
    pub options: Vec<String>,
}

impl ParsedRule {
    pub open spec fn view(&self) -> (RuleType, Seq<char>) {
        (self.rule_type, self.pattern@)
    }

    /// A copy of this rule.
    pub fn duplicate(&self) -> (r: ParsedRule)
        ensures
            r.view() == self.view(),
            r.options@.len() == self.options@.len(),
            forall|k: int| 0 <= k < r.options@.len() ==> #[trigger] r.options@[k]@ == self.options@[k]@,
    {
        let mut options: Vec<String> = Vec::new();
        let mut i: usize = 0;
        while i < self.options.len()
            invariant
                i <= self.options@.len(),
                options@.len() == i,
                forall|k: int| 0 <= k < i ==> #[trigger] options@[k]@ == self.options@[k]@,
            decreases self.options@.len() - i,
        {
            options.push(self.options[i].clone());
            i = i + 1;
        }
        ParsedRule { pattern: self.pattern.clone(), rule_type: self.rule_type, options }
    }
}

pub open spec fn rules_view(v: Seq<ParsedRule>) -> Seq<(RuleType, Seq<char>)> {
    v.map_values(|r: ParsedRule| r.view())
}

/// The rule that one line of a list of the given format yields, if any.
/// Lines are trimmed first; empty lines and comments yield none.
pub open spec fn rule_of_line(fmt: FilterListType, line: Seq<char>) -> Option<(RuleType, Seq<char>)> {
    let t = trim(line);
    if t.len() == 0 {
        None
    } else {
        match fmt {
            FilterListType::Hosts => {
                let fields = nonempty(split(t, Separator::Whitespace));
                if t[0] == '#' || fields.len() < 2 {
                    None
                } else {
                    Some((RuleType::Block, fields[1]))
                }
            },
            FilterListType::Custom => {
                if t[0] == '#' {
                    None
                } else {
                    Some((RuleType::Block, t))
                }
            },
            _ => {
                if t[0] == '!' {
                    None
                } else if t.len() >= 2 && t[0] == '@' && t[1] == '@' {
                    Some((RuleType::Allow, t.subrange(2, t.len() as int)))
                } else {
                    Some((RuleType::Block, t))
                }
            },
        }
    }
}

/// The rules of a sequence of lines, in line order.
pub open spec fn rules_of_lines(fmt: FilterListType, lines: Seq<Seq<char>>) -> Seq<
    (RuleType, Seq<char>),
>
    decreases lines.len(),
{
    if lines.len() == 0 {
        Seq::empty()
    } else {
        let prev = rules_of_lines(fmt, lines.drop_last());
        match rule_of_line(fmt, lines.last()) {
            Some(r) => prev.push(r),
            None => prev,
        }
    }
}

/// The rules of a whole list text.
pub open spec fn parse_list(fmt: FilterListType, content: Seq<char>) -> Seq<(RuleType, Seq<char>)> {
    rules_of_lines(fmt, split(content, Separator::Newline))
}

/// The non-empty pieces of `pieces`, computed.
fn nonempty_pieces(pieces: &Vec<Vec<char>>) -> (r: Vec<Vec<char>>)
    ensures
        r@.len() == nonempty(pieces@.map_values(|p: Vec<char>| p@)).len(),
        forall|k: int|
            0 <= k < r@.len() ==> #[trigger] r@[k]@ == nonempty(
                pieces@.map_values(|p: Vec<char>| p@),
            )[k],
{
    let ghost all = pieces@.map_values(|p: Vec<char>| p@);
    let mut r: Vec<Vec<char>> = Vec::new();
    let mut i: usize = 0;
    assert(all.take(0) =~= Seq::<Seq<char>>::empty());
    while i < pieces.len()
        invariant
            i <= pieces@.len(),
            all == pieces@.map_values(|p: Vec<char>| p@),
            r@.len() == nonempty(all.take(i as int)).len(),
            forall|k: int| 0 <= k < r@.len() ==> #[trigger] r@[k]@ == nonempty(all.take(i as int))[k],
        decreases pieces@.len() - i,
    {
        assert(all.take(i + 1).drop_last() =~= all.take(i as int));
        assert(all.take(i + 1).last() == pieces@[i as int]@);
        if pieces[i].len() > 0 {
            let mut copy: Vec<char> = Vec::new();
            let mut j: usize = 0;
            while j < pieces[i].len()
                invariant
                    i < pieces@.len(),
                    j <= pieces@[i as int]@.len(),
                    copy@ == pieces@[i as int]@.subrange(0, j as int),
                decreases pieces@[i as int]@.len() - j,
            {
                copy.push(pieces[i][j]);
                assert(copy@ =~= pieces@[i as int]@.subrange(0, j + 1));
                j = j + 1;
            }
            assert(copy@ =~= pieces@[i as int]@);
            r.push(copy);
        }
        i = i + 1;
    }
    assert(all.take(pieces@.len() as int) =~= all);
    r
}

/// The rule of one line, computed.
fn rule_from_line(fmt: FilterListType, line: &Vec<char>) -> (r: Option<ParsedRule>)
    ensures
        match r {
            Some(p) => rule_of_line(fmt, line@) == Some(p.view()) && p.options@.len() == 0,
            None => rule_of_line(fmt, line@) is None,
        },
{
    let t = trim_chars(line);
    if t.len() == 0 {
        return None;
    }
    match fmt {
        FilterListType::Hosts => {
            if t[0] == '#' {
                return None;
            }
            let pieces = split_chars(&t, Separator::Whitespace);
            let fields = nonempty_pieces(&pieces);
            assert(pieces@.map_values(|p: Vec<char>| p@) =~= split(t@, Separator::Whitespace));
            if fields.len() < 2 {
                None
            } else {
                Some(
                    ParsedRule {
                        pattern: string_of(fields[1].as_slice()),
                        rule_type: RuleType::Block,
                        options: Vec::new(),
                    },
                )
            }
        },
        FilterListType::Custom => {
            if t[0] == '#' {
                None
            } else {
                Some(
                    ParsedRule {
                        pattern: string_of(t.as_slice()),
                        rule_type: RuleType::Block,
                        options: Vec::new(),
                    },
                )
            }
        },
        _ => {
            if t[0] == '!' {
                None
            } else if t.len() >= 2 && t[0] == '@' && t[1] == '@' {
                let rest = crate::text::slice_chars(&t, 2, t.len());
                Some(
                    ParsedRule {
                        pattern: string_of(rest.as_slice()),
                        rule_type: RuleType::Allow,
                        options: Vec::new(),
                    },
                )
            } else {
                Some(
                    ParsedRule {
                        pattern: string_of(t.as_slice()),
                        rule_type: RuleType::Block,
                        options: Vec::new(),
                    },
                )
            }
        },
    }
}

/// Reads the rules of a list text of the given format, one per line that
/// holds a rule, in line order.
pub fn parse_filter_content(content: &str, list_type: FilterListType) -> (r: Vec<ParsedRule>)
    ensures
        rules_view(r@) == parse_list(list_type, content@),
        forall|k: int| 0 <= k < r@.len() ==> (#[trigger] r@[k]).options@.len() == 0,
{
    let chars = chars_of(content);
    let lines = split_chars(&chars, Separator::Newline);
    let ghost all = split(content@, Separator::Newline);
    let mut rules: Vec<ParsedRule> = Vec::new();
    let mut i: usize = 0;
    assert(all.take(0) =~= Seq::<Seq<char>>::empty());
    while i < lines.len()
        invariant
            i <= lines@.len(),
            lines@.len() == all.len(),
            all == split(content@, Separator::Newline),
            forall|k: int| 0 <= k < lines@.len() ==> #[trigger] lines@[k]@ == all[k],
            rules_view(rules@) == rules_of_lines(list_type, all.take(i as int)),
            forall|k: int| 0 <= k < rules@.len() ==> (#[trigger] rules@[k]).options@.len() == 0,
        decreases lines@.len() - i,
    {
        assert(all.take(i + 1).drop_last() =~= all.take(i as int));
        assert(all.take(i + 1).last() == lines@[i as int]@);
        match rule_from_line(list_type, &lines[i]) {
            Some(p) => {
                rules.push(p);
                assert(rules_view(rules@) =~= rules_of_lines(list_type, all.take(i as int)).push(
                    p.view(),
                ));
            },
            None => {},
        }
        i = i + 1;
    }
    assert(all.take(lines@.len() as int) =~= all);
    rules
}

/// EasyList: `!` starts a comment, `@@` an allow rule, anything else blocks.
pub fn parse_easylist_format(content: &str) -> (r: Vec<ParsedRule>)
    ensures
        rules_view(r@) == parse_list(FilterListType::EasyList, content@),
        forall|k: int| 0 <= k < r@.len() ==> (#[trigger] r@[k]).options@.len() == 0,
{
    parse_filter_content(content, FilterListType::EasyList)
}

/// AdGuard lists are read with the EasyList rules.
pub fn parse_adguard_format(content: &str) -> (r: Vec<ParsedRule>)
    ensures
        rules_view(r@) == parse_list(FilterListType::EasyList, content@),
        forall|k: int| 0 <= k < r@.len() ==> (#[trigger] r@[k]).options@.len() == 0,
{
    parse_filter_content(content, FilterListType::EasyList)
}

/// uBlock Origin lists are read with the EasyList rules.
pub fn parse_ublock_format(content: &str) -> (r: Vec<ParsedRule>)
    ensures
        rules_view(r@) == parse_list(FilterListType::EasyList, content@),
        forall|k: int| 0 <= k < r@.len() ==> (#[trigger] r@[k]).options@.len() == 0,
{
    parse_filter_content(content, FilterListType::EasyList)
}

/// Hosts files: `#` starts a comment, the second field of a line is a
/// blocked domain, lines with fewer fields are skipped.
pub fn parse_hosts_format(content: &str) -> (r: Vec<ParsedRule>)
    ensures
        rules_view(r@) == parse_list(FilterListType::Hosts, content@),
        forall|k: int| 0 <= k < r@.len() ==> (#[trigger] r@[k]).options@.len() == 0,
{
    parse_filter_content(content, FilterListType::Hosts)
}

/// One domain or pattern per line, `#` starts a comment.
pub fn parse_custom_format(content: &str) -> (r: Vec<ParsedRule>)
    ensures
        rules_view(r@) == parse_list(FilterListType::Custom, content@),
        forall|k: int| 0 <= k < r@.len() ==> (#[trigger] r@[k]).options@.len() == 0,
{
    parse_filter_content(content, FilterListType::Custom)
}

/// What is known of one configured filter list.
#[derive(Debug)]
pub struct FilterListMetadata {
    pub name: String,
    pub url: String,
    pub list_type: FilterListType,
    /// Seconds since the Unix epoch of the last successful load.
    pub last_updated: Option<u64>,
    pub rule_count: usize,
    pub enabled: bool,
}

/// The configured filter lists and the rules last read from each.
pub struct FilterManager {
    lists: Vec<FilterListMetadata>,
    rules_cache: Vec<Vec<ParsedRule>>,
}

/// The concatenation of the rule sequences, in order.
pub open spec fn flatten_rules(caches: Seq<Seq<(RuleType, Seq<char>)>>) -> Seq<(RuleType, Seq<char>)>
    decreases caches.len(),
{
    if caches.len() == 0 {
        Seq::empty()
    } else {
        flatten_rules(caches.drop_last()) + caches.last()
    }
}

impl FilterManager {
    /// One entry per list, names distinct, a rule cache beside each.
    pub closed spec fn wf(&self) -> bool {
        &&& self.lists@.len() == self.rules_cache@.len()
        &&& forall|i: int, j: int|
            0 <= i < j < self.lists@.len() ==> (#[trigger] self.lists@[i]).name@
                != (#[trigger] self.lists@[j]).name@
    }

    pub closed spec fn names(&self) -> Seq<Seq<char>> {
        self.lists@.map_values(|m: FilterListMetadata| m.name@)
    }

    pub closed spec fn metadata(&self) -> Seq<FilterListMetadata> {
        self.lists@
    }

    /// The cached rules of each list, in list order.
    pub closed spec fn caches(&self) -> Seq<Seq<(RuleType, Seq<char>)>> {
        self.rules_cache@.map_values(|v: Vec<ParsedRule>| rules_view(v@))
    }

    /// The index of the list called `name`, if one is.
    pub open spec fn index_of(&self, name: Seq<char>) -> Option<int> {
        if exists|i: int| 0 <= i < self.names().len() && self.names()[i] == name {
            Some(choose|i: int| 0 <= i < self.names().len() && self.names()[i] == name)
        } else {
            None
        }
    }

    pub fn new() -> (r: Self)
        ensures
            r.wf(),
            r.names().len() == 0,
            r.caches().len() == 0,
    {
        FilterManager { lists: Vec::new(), rules_cache: Vec::new() }
    }

    fn find(&self, name: &str) -> (r: Option<usize>)
        requires
            self.wf(),
        ensures
            match r {
                Some(i) => i < self.lists@.len() && self.lists@[i as int].name@ == name@,
                None => forall|i: int|
                    0 <= i < self.lists@.len() ==> (#[trigger] self.lists@[i]).name@ != name@,
            },
    {
        let mut i: usize = 0;
        while i < self.lists.len()
            invariant
                i <= self.lists@.len(),
                forall|k: int| 0 <= k < i ==> (#[trigger] self.lists@[k]).name@ != name@,
            decreases self.lists@.len() - i,
        {
            if str_eq(self.lists[i].name.as_str(), name) {
                return Some(i);
            }
            i = i + 1;
        }
        None
    }

    proof fn lemma_index_of(&self, name: Seq<char>, i: int)
        requires
            self.wf(),
            0 <= i < self.lists@.len(),
            self.lists@[i].name@ == name,
        ensures
            self.index_of(name) == Some(i),
    {
        assert(self.names()[i] == name);
        let j = choose|j: int| 0 <= j < self.names().len() && self.names()[j] == name;
        assert(self.lists@[j].name@ == name);
        if j < i {
            assert(self.lists@[j].name@ != self.lists@[i].name@);
        } else if i < j {
            assert(self.lists@[i].name@ != self.lists@[j].name@);
        }
    }

    /// Registers a list. A list of the same name is replaced, and keeps the
    /// rules read for it so far; a new list starts with none.
    pub fn add_filter_list(&mut self, config: FilterListConfig) -> (r: Result<(), FilterError>)
        requires
            old(self).wf(),
        ensures
            r is Ok,
            final(self).wf(),
            match old(self).index_of(config.name@) {
                Some(i) => final(self).names() == old(self).names() && final(self).caches()
                    == old(self).caches(),
                None => final(self).names() == old(self).names().push(config.name@)
                    && final(self).caches() == old(self).caches().push(Seq::empty()),
            },
            final(self).index_of(config.name@) is Some,
            ({
                let m = final(self).metadata()[final(self).index_of(config.name@)->0];
                &&& m.url@ == config.url@
                &&& m.list_type == config.list_type
                &&& m.enabled == config.enabled
                &&& m.last_updated is None
                &&& m.rule_count == 0
            }),
    {
        let found = self.find(config.name.as_str());
        let ghost old_caches = self.caches();
        let meta = FilterListMetadata {
            name: config.name,
            url: config.url,
            list_type: config.list_type,
            last_updated: None,
            rule_count: 0,
            enabled: config.enabled,
        };
        match found {
            Some(i) => {
                proof {
                    self.lemma_index_of(config.name@, i as int);
                }
                self.lists.set(i, meta);
                assert(self.names() =~= old(self).names());
                assert(self.caches() =~= old_caches);
                proof {
                    self.lemma_index_of(config.name@, i as int);
                }
            },
            None => {
                assert(!(exists|i: int|
                    0 <= i < old(self).names().len() && old(self).names()[i] == config.name@));
                let n = self.lists.len();
                self.lists.push(meta);
                self.rules_cache.push(Vec::new());
                assert(rules_view(self.rules_cache@[n as int]@) =~= Seq::empty());
                assert(self.names() =~= old(self).names().push(config.name@));
                assert(self.caches() =~= old_caches.push(Seq::empty()));
                proof {
                    self.lemma_index_of(config.name@, n as int);
                }
            },
        }
        Ok(())
    }

    /// Takes a freshly read text for the list called `name`: the list's
    /// rules are replaced, as one step, by those of the text, and its
    /// update time and rule count are set together.
    fn store_rules(&mut self, i: usize, content: &str)
        requires
            old(self).wf(),
            i < old(self).lists@.len(),
        ensures
            final(self).wf(),
            final(self).names() == old(self).names(),
            final(self).caches() == old(self).caches().update(
                i as int,
                parse_list(old(self).metadata()[i as int].list_type, content@),
            ),
            final(self).metadata()[i as int].last_updated is Some,
            final(self).metadata()[i as int].rule_count == parse_list(
                old(self).metadata()[i as int].list_type,
                content@,
            ).len(),
            final(self).metadata()[i as int].list_type == old(self).metadata()[i as int].list_type,
            final(self).metadata()[i as int].enabled == old(self).metadata()[i as int].enabled,
            forall|j: int|
                0 <= j < old(self).lists@.len() && j != i ==> #[trigger] final(self).metadata()[j]
                    == old(self).metadata()[j],
    {
        let rules = parse_filter_content(content, self.lists[i].list_type);
        let count = rules.len();
        let now = TimeUtils::now_seconds();
        let ghost old_caches = self.caches();
        self.rules_cache.set(i, rules);
        let old_meta = &self.lists[i];
        let meta = FilterListMetadata {
            name: old_meta.name.clone(),
            url: old_meta.url.clone(),
            list_type: old_meta.list_type,
            last_updated: Some(now),
            rule_count: count,
            enabled: old_meta.enabled,
        };
        self.lists.set(i, meta);
        assert(self.names() =~= old(self).names());
        assert(self.caches() =~= old_caches.update(
            i as int,
            parse_list(old(self).metadata()[i as int].list_type, content@),
        ));
    }

    /// Applies the outcome of fetching the list called `name`.
    /// An unknown name is `ListNotFound`; a disabled list is left as it is;
    /// a failed fetch is returned and leaves the list's rules and metadata
    /// as they were; a fetched text replaces the list's rules.
    pub fn update_filter_list(
        &mut self,
        name: &str,
        fetched: Result<String, FilterError>,
    ) -> (r: Result<(), FilterError>)
        requires
            old(self).wf(),
        ensures
            final(self).wf(),
            final(self).names() == old(self).names(),
            match old(self).index_of(name@) {
                None => (match r { Err(FilterError::ListNotFound { name: n }) => n@ == name@, _ => false })
                    && final(self).caches() == old(self).caches() && final(self).metadata() == old(self).metadata(),
                Some(i) => if !old(self).metadata()[i].enabled {
                    r is Ok && final(self).caches() == old(self).caches() && final(self).metadata()
                        == old(self).metadata()
                } else {
                    match fetched {
                        Err(e) => r == Err::<(), FilterError>(e) && final(self).caches()
                            == old(self).caches() && final(self).metadata() == old(self).metadata(),
                        Ok(text) => r is Ok && final(self).caches() == old(self).caches().update(
                            i,
                            parse_list(old(self).metadata()[i].list_type, text@),
                        ) && final(self).metadata()[i].last_updated is Some
                            && final(self).metadata()[i].rule_count == parse_list(
                            old(self).metadata()[i].list_type,
                            text@,
                        ).len() && final(self).metadata()[i].list_type == old(self).metadata()[i].list_type && final(self).metadata()[i].enabled == old(self).metadata()[i].enabled && (forall|j: int|
                            0 <= j < old(self).metadata().len() && j != i ==> #[trigger] final(self).metadata()[j] == old(self).metadata()[j]),
                    }
                },
            },
    {
        match self.find(name) {
            None => {
                assert(!(exists|i: int|
                    0 <= i < old(self).names().len() && old(self).names()[i] == name@));
                Err(FilterError::ListNotFound { name: name.to_string() })
            },
            Some(i) => {
                proof {
                    self.lemma_index_of(name@, i as int);
                }
                if !self.lists[i].enabled {
                    return Ok(());
                }
                match fetched {
                    Err(e) => Err(e),
                    Ok(text) => {
                        self.store_rules(i, text.as_str());
                        Ok(())
                    },
                }
            },
        }
    }

    /// Takes the text of the list called `name` read from local storage.
    /// An unknown name is `ListNotFound`; otherwise the text replaces the
    /// list's rules, enabled or not.
    pub fn load_filter_list(&mut self, name: &str, content: &str) -> (r: Result<(), FilterError>)
        requires
            old(self).wf(),
        ensures
            final(self).wf(),
            final(self).names() == old(self).names(),
            match old(self).index_of(name@) {
                None => (match r { Err(FilterError::ListNotFound { name: n }) => n@ == name@, _ => false })
                    && final(self).caches() == old(self).caches() && final(self).metadata() == old(self).metadata(),
                Some(i) => r is Ok && final(self).caches() == old(self).caches().update(
                    i,
                    parse_list(old(self).metadata()[i].list_type, content@),
                ) && final(self).metadata()[i].last_updated is Some
                    && final(self).metadata()[i].rule_count == parse_list(
                    old(self).metadata()[i].list_type,
                    content@,
                ).len() && final(self).metadata()[i].list_type == old(self).metadata()[i].list_type
                    && final(self).metadata()[i].enabled == old(self).metadata()[i].enabled && (
                forall|j: int|
                    0 <= j < old(self).metadata().len() && j != i ==> #[trigger] final(self).metadata()[j] == old(self).metadata()[j]),
            },
    {
        match self.find(name) {
            None => {
                assert(!(exists|i: int|
                    0 <= i < old(self).names().len() && old(self).names()[i] == name@));
                Err(FilterError::ListNotFound { name: name.to_string() })
            },
            Some(i) => {
                proof {
                    self.lemma_index_of(name@, i as int);
                }
                self.store_rules(i, content);
                Ok(())
            },
        }
    }

    /// The rules of every list, list after list in the order the lists
    /// were added, each list's rules in their own order.
    pub fn get_all_rules(&self) -> (r: Vec<ParsedRule>)
        requires
            self.wf(),
        ensures
            rules_view(r@) == flatten_rules(self.caches()),
    {
        let mut out: Vec<ParsedRule> = Vec::new();
        let mut i: usize = 0;
        assert(self.caches().take(0) =~= Seq::<Seq<(RuleType, Seq<char>)>>::empty());
        while i < self.rules_cache.len()
            invariant
                i <= self.rules_cache@.len(),
                rules_view(out@) == flatten_rules(self.caches().take(i as int)),
            decreases self.rules_cache@.len() - i,
        {
            let list = &self.rules_cache[i];
            let ghost before = rules_view(out@);
            let mut j: usize = 0;
            while j < list.len()
                invariant
                    i < self.rules_cache@.len(),
                    j <= list@.len(),
                    list == self.rules_cache@[i as int],
                    rules_view(out@) == before + rules_view(list@).take(j as int),
                decreases list@.len() - j,
            {
                let d = list[j].duplicate();
                let ghost prev_out = out@;
                out.push(d);
                assert(rules_view(out@) =~= rules_view(prev_out).push(list@[j as int].view()));
                assert(rules_view(list@).take(j + 1) =~= rules_view(list@).take(j as int).push(
                    list@[j as int].view(),
                ));
                assert(rules_view(out@) =~= before + rules_view(list@).take(j + 1));
                j = j + 1;
            }
            assert(rules_view(list@).take(list@.len() as int) =~= rules_view(list@));
            assert(self.caches().take(i + 1).drop_last() =~= self.caches().take(i as int));
            i = i + 1;
        }
        assert(self.caches().take(self.rules_cache@.len() as int) =~= self.caches());
        out
    }

    /// The metadata of every list, in the order the lists were added.
    pub fn get_metadata(&self) -> (r: &Vec<FilterListMetadata>)
        ensures
            r@ == self.metadata(),
    {
        &self.lists
    }
}

} // verus!
