//! The system-information source: turns one reading of the machine into
//! metric samples.

use vstd::prelude::*;

use crate::event::{insert_all, tag_pairs, Metric};

verus! {

/// Words joined by single spaces.
pub open spec fn join_words(words: Seq<Seq<char>>) -> Seq<char>
    decreases words.len(),
{
    if words.len() == 0 {
        seq![]
    } else if words.len() == 1 {
        words[0]
    } else {
        join_words(words.drop_last()) + " "@ + words.last()
    }
}

/// The contents of a list of strings.
pub open spec fn words_of(v: Seq<String>) -> Seq<Seq<char>> {
    v.map_values(|s: String| s@)
}

/// A command line as one string: its words joined by single spaces.
pub fn combine_cmd(input: &[String]) -> (r: String)
    ensures
        r@ == join_words(words_of(input@)),
{
    let ghost words = words_of(input@);
    let mut r = String::new();
    let n = input.len();
    let mut i: usize = 0;
    while i < n
        invariant
            n == input@.len(),
            words == words_of(input@),
            i <= n,
            r@ == join_words(words.take(i as int)),
        decreases n - i,
    {
        assert(words.take(i + 1).drop_last() =~= words.take(i as int));
        if i > 0 {
            r.append(" ");
        } else {
            assert(words.take(1) =~= seq![words[0]]);
        }
        r.append(input[i].as_str());
        i = i + 1;
    }
    assert(words.take(n as int) =~= words);
    r
}

/// A string cut at every space, the way `str::split(' ')` cuts it: `n`
/// spaces give `n + 1` pieces, some of them possibly empty.
pub open spec fn split_at_spaces(s: Seq<char>) -> Seq<Seq<char>>
    decreases s.len(),
{
    if s.len() == 0 {
        seq![seq![]]
    } else {
        let rest = split_at_spaces(s.drop_last());
        if s.last() == ' ' {
            rest.push(seq![])
        } else {
            rest.update(rest.len() - 1, rest.last().push(s.last()))
        }
    }
}

/// The word holds no space.
pub open spec fn has_no_space(w: Seq<char>) -> bool {
    forall|i: int| 0 <= i < w.len() ==> w[i] != ' '
}

/// The total number of characters in the words.
pub open spec fn total_len(words: Seq<Seq<char>>) -> int
    decreases words.len(),
{
    if words.len() == 0 {
        0
    } else {
        total_len(words.drop_last()) + words.last().len()
    }
}

proof fn lemma_split_nonempty(s: Seq<char>)
    ensures
        split_at_spaces(s).len() >= 1,
    decreases s.len(),
{
    if s.len() > 0 {
        lemma_split_nonempty(s.drop_last());
    }
}

proof fn lemma_split_single_word(w: Seq<char>)
    requires
        has_no_space(w),
    ensures
        split_at_spaces(w) == seq![w],
    decreases w.len(),
{
    if w.len() == 0 {
        assert(w =~= seq![]);
        assert(split_at_spaces(w) =~= seq![w]);
    } else {
        let v = w.drop_last();
        assert(has_no_space(v));
        lemma_split_single_word(v);
        assert(w.last() != ' ');
        assert(v.push(w.last()) =~= w);
        let rest = split_at_spaces(v);
        assert(rest == seq![v]);
        assert(split_at_spaces(w) == rest.update(0, v.push(w.last())));
        assert(split_at_spaces(w) =~= seq![w]);
    }
}

proof fn lemma_split_appended_word(p: Seq<char>, w: Seq<char>)
    requires
        has_no_space(w),
    ensures
        split_at_spaces(p + " "@ + w) == split_at_spaces(p).push(w),
    decreases w.len(),
{
    reveal_strlit(" ");
    lemma_split_nonempty(p);
    let s = p + " "@ + w;
    if w.len() == 0 {
        assert(s.len() == p.len() + 1);
        assert(s.last() == ' ');
        assert(s.drop_last() =~= p);
        assert(split_at_spaces(s) == split_at_spaces(p).push(seq![]));
        assert(w =~= seq![]);
    } else {
        let v = w.drop_last();
        assert(has_no_space(v));
        lemma_split_appended_word(p, v);
        assert(s.last() == w.last());
        assert(w.last() != ' ');
        assert(s.drop_last() =~= p + " "@ + v);
        let rest = split_at_spaces(p + " "@ + v);
        assert(rest == split_at_spaces(p).push(v));
        assert(split_at_spaces(s) == rest.update(rest.len() - 1, v.push(w.last())));
        assert(v.push(w.last()) =~= w);
        assert(split_at_spaces(s) =~= split_at_spaces(p).push(w));
    }
}

/// A command line joined from words without spaces cuts back at its spaces
/// into exactly those words.
pub proof fn law_combined_command_splits_back(words: Seq<Seq<char>>)
    requires
        words.len() >= 1,
        forall|i: int| 0 <= i < words.len() ==> has_no_space(#[trigger] words[i]),
    ensures
        split_at_spaces(join_words(words)) == words,
    decreases words.len(),
{
    if words.len() == 1 {
        lemma_split_single_word(words[0]);
        assert(words =~= seq![words[0]]);
    } else {
        let rest = words.drop_last();
        assert forall|i: int| 0 <= i < rest.len() implies has_no_space(#[trigger] rest[i]) by {
            assert(rest[i] == words[i]);
        }
        law_combined_command_splits_back(rest);
        lemma_split_appended_word(join_words(rest), words.last());
        assert(rest.push(words.last()) =~= words);
    }
}

/// A command line is as long as its words together, plus one space between
/// each two of them.
pub proof fn law_combined_command_length(words: Seq<Seq<char>>)
    requires
        words.len() >= 1,
    ensures
        join_words(words).len() == total_len(words) + words.len() - 1,
    decreases words.len(),
{
    reveal_strlit(" ");
    let rest = words.drop_last();
    if words.len() == 1 {
        assert(total_len(rest) == 0);
        assert(words.last() == words[0]);
    } else {
        law_combined_command_length(rest);
        assert(" "@.len() == 1);
        assert(join_words(words) == join_words(rest) + " "@ + words.last());
    }
}

/// The tag values of a metric, as text.
pub open spec fn tag_texts_map(m: Map<Seq<char>, String>) -> Map<Seq<char>, Seq<char>> {
    m.map_values(|s: String| s@)
}

/// `tags` with the `host` tag when the host name is known.
pub open spec fn host_tagged(tags: Map<Seq<char>, Seq<char>>, host: Option<String>) -> Map<Seq<char>, Seq<char>> {
    match host {
        Some(h) => tags.insert("host"@, h@),
        None => tags,
    }
}

/// `m` is the sample `name` with value `value_bits` and exactly the tags `tags`.
pub open spec fn is_sample(m: Metric, name: Seq<char>, value_bits: u64, tags: Map<Seq<char>, Seq<char>>) -> bool {
    &&& m.name@ == name
    &&& m.value_bits == value_bits
    &&& tag_texts_map(m.tags.view()) == tags
}

/// The memory figures of one reading, each as the bit pattern of an `f64`.
#[derive(Debug, Clone, Copy, PartialEq, Eq)]
pub struct MemoryReading {
    pub total_bits: u64,
    pub used_bits: u64,
    pub swap_total_bits: u64,
    pub swap_used_bits: u64,
}

/// One CPU core: its name, usage and frequency (as `f64` bit patterns).
#[derive(Debug)]
pub struct CpuReading {
    pub name: String,
    pub usage_bits: u64,
    pub frequency_bits: u64,
}

/// One hardware component with a temperature sensor.
#[derive(Debug)]
pub struct ComponentReading {
    pub label: String,
    pub temperature_bits: u64,
}

/// One process: how it was started and what it uses.
#[derive(Debug)]
pub struct ProcessReading {
    /// The process id, written out in decimal.
    pub pid: String,
    /// The command line, word by word.
    pub cmd: Vec<String>,
    /// The executable's path.
    pub exe: String,
    /// The working directory.
    pub cwd: String,
    pub memory_bits: u64,
    pub virtual_memory_bits: u64,
    pub cpu_usage_bits: u64,
}

/// What one reading of the machine found.
#[derive(Debug)]
pub struct SystemSnapshot {
    pub host_name: Option<String>,
    pub memory: MemoryReading,
    pub processes: Vec<ProcessReading>,
    /// The number of CPU cores, as the bit pattern of an `f64`.
    pub cpu_count_bits: u64,
    pub cpus: Vec<CpuReading>,
    pub components: Vec<ComponentReading>,
}

/// The tags of a process's samples (before the host).
pub open spec fn process_tags(p: ProcessReading) -> Map<Seq<char>, Seq<char>> {
    Map::empty().insert("cmd"@, join_words(words_of(p.cmd@))).insert("exe"@, p.exe@).insert(
        "pid"@,
        p.pid@,
    ).insert("cwd"@, p.cwd@)
}

/// The samples of one process: its memory, virtual memory and CPU usage.
pub open spec fn process_samples(ms: Seq<Metric>, p: ProcessReading, host: Option<String>) -> bool {
    let tags = host_tagged(process_tags(p), host);
    &&& ms.len() == 3
    &&& is_sample(ms[0], "process.memory"@, p.memory_bits, tags)
    &&& is_sample(ms[1], "process.virtual_memory"@, p.virtual_memory_bits, tags)
    &&& is_sample(ms[2], "process.cpu_usage"@, p.cpu_usage_bits, tags)
}

/// The samples of every process, process by process.
pub open spec fn processes_samples(ms: Seq<Metric>, ps: Seq<ProcessReading>, host: Option<String>) -> bool {
    &&& ms.len() == 3 * ps.len()
    &&& forall|i: int| 0 <= i < ps.len() ==> process_samples(#[trigger] ms.subrange(3 * i, 3 * i + 3), ps[i], host)
}

/// The memory samples: total and used memory, then total and used swap.
pub open spec fn memory_samples(ms: Seq<Metric>, m: MemoryReading, host: Option<String>) -> bool {
    let tags = host_tagged(Map::empty(), host);
    &&& ms.len() == 4
    &&& is_sample(ms[0], "system.memory.total"@, m.total_bits, tags)
    &&& is_sample(ms[1], "system.memory.used"@, m.used_bits, tags)
    &&& is_sample(ms[2], "system.swap.total"@, m.swap_total_bits, tags)
    &&& is_sample(ms[3], "system.swap.used"@, m.swap_used_bits, tags)
}

/// The CPU samples: the number of cores, then the usage and frequency of
/// each core, tagged with its name.
pub open spec fn cpu_samples(ms: Seq<Metric>, count_bits: u64, cpus: Seq<CpuReading>, host: Option<String>) -> bool {
    &&& ms.len() == 1 + 2 * cpus.len()
    &&& is_sample(ms[0], "system.cpu.count"@, count_bits, host_tagged(Map::empty(), host))
    &&& forall|i: int| 0 <= i < cpus.len() ==> is_sample(
        #[trigger] ms[1 + 2 * i],
        "system.cpu.usage"@,
        cpus[i].usage_bits,
        host_tagged(Map::empty().insert("name"@, cpus[i].name@), host),
    )
    &&& forall|i: int| 0 <= i < cpus.len() ==> is_sample(
        #[trigger] ms[2 + 2 * i],
        "system.cpu.frequency"@,
        cpus[i].frequency_bits,
        host_tagged(Map::empty().insert("name"@, cpus[i].name@), host),
    )
}

/// The temperature of each component, tagged with its label.
pub open spec fn component_samples(ms: Seq<Metric>, cs: Seq<ComponentReading>, host: Option<String>) -> bool {
    &&& ms.len() == cs.len()
    &&& forall|i: int| 0 <= i < cs.len() ==> is_sample(
        #[trigger] ms[i],
        "system.component.temperature"@,
        cs[i].temperature_bits,
        host_tagged(Map::empty().insert("name"@, cs[i].label@), host),
    )
}

/// The figure of a memory reading that a sample name stands for.
pub open spec fn memory_figure(m: MemoryReading, name: Seq<char>) -> Option<u64> {
    if name == "system.memory.total"@ {
        Some(m.total_bits)
    } else if name == "system.memory.used"@ {
        Some(m.used_bits)
    } else if name == "system.swap.total"@ {
        Some(m.swap_total_bits)
    } else if name == "system.swap.used"@ {
        Some(m.swap_used_bits)
    } else {
        None
    }
}

/// The figure of a process reading that a sample name stands for.
pub open spec fn process_figure(p: ProcessReading, name: Seq<char>) -> Option<u64> {
    if name == "process.memory"@ {
        Some(p.memory_bits)
    } else if name == "process.virtual_memory"@ {
        Some(p.virtual_memory_bits)
    } else if name == "process.cpu_usage"@ {
        Some(p.cpu_usage_bits)
    } else {
        None
    }
}

/// The figure of a CPU core reading that a sample name stands for.
pub open spec fn cpu_figure(c: CpuReading, name: Seq<char>) -> Option<u64> {
    if name == "system.cpu.usage"@ {
        Some(c.usage_bits)
    } else if name == "system.cpu.frequency"@ {
        Some(c.frequency_bits)
    } else {
        None
    }
}

proof fn lemma_sample_names_distinct()
    ensures
        "system.memory.total"@ != "system.memory.used"@,
        "system.memory.total"@ != "system.swap.total"@,
        "system.memory.total"@ != "system.swap.used"@,
        "system.memory.used"@ != "system.swap.total"@,
        "system.memory.used"@ != "system.swap.used"@,
        "system.swap.total"@ != "system.swap.used"@,
        "process.memory"@ != "process.virtual_memory"@,
        "process.memory"@ != "process.cpu_usage"@,
        "process.virtual_memory"@ != "process.cpu_usage"@,
        "system.cpu.usage"@ != "system.cpu.frequency"@,
        "system.cpu.count"@ != "system.cpu.usage"@,
        "system.cpu.count"@ != "system.cpu.frequency"@,
{
    reveal_strlit("system.memory.total");
    reveal_strlit("system.memory.used");
    reveal_strlit("system.swap.total");
    reveal_strlit("system.swap.used");
    reveal_strlit("process.memory");
    reveal_strlit("process.virtual_memory");
    reveal_strlit("process.cpu_usage");
    reveal_strlit("system.cpu.usage");
    reveal_strlit("system.cpu.frequency");
    reveal_strlit("system.cpu.count");
    assert("system.memory.total"@.len() == 19);
    assert("system.memory.used"@.len() == 18);
    assert("system.swap.total"@.len() == 17);
    assert("system.swap.used"@.len() == 16);
    assert("process.memory"@.len() == 14);
    assert("process.virtual_memory"@.len() == 22);
    assert("process.cpu_usage"@.len() == 17);
    assert("system.cpu.usage"@.len() == 16);
    assert("system.cpu.frequency"@.len() == 20);
    assert("system.cpu.count"@.len() == 16);
    assert("system.cpu.count"@[11] != "system.cpu.usage"@[11]);
}

proof fn lemma_tag_names_distinct()
    ensures
        "cmd"@ != "exe"@,
        "cmd"@ != "pid"@,
        "cmd"@ != "cwd"@,
        "exe"@ != "pid"@,
        "exe"@ != "cwd"@,
        "pid"@ != "cwd"@,
        "host"@ != "cmd"@,
        "host"@ != "exe"@,
        "host"@ != "pid"@,
        "host"@ != "cwd"@,
        "host"@ != "name"@,
{
    reveal_strlit("cmd");
    reveal_strlit("exe");
    reveal_strlit("pid");
    reveal_strlit("cwd");
    reveal_strlit("host");
    reveal_strlit("name");
    assert("cmd"@[0] != "exe"@[0]);
    assert("cmd"@[0] != "pid"@[0]);
    assert("cmd"@[1] != "cwd"@[1]);
    assert("exe"@[0] != "pid"@[0]);
    assert("exe"@[0] != "cwd"@[0]);
    assert("pid"@[0] != "cwd"@[0]);
    assert("host"@[0] != "name"@[0]);
}

/// The memory samples report each of the four memory figures once, each
/// under its own name: a sample's value is the figure its name stands for.
pub proof fn law_memory_samples_report_their_figures(ms: Seq<Metric>, m: MemoryReading, host: Option<String>)
    requires
        memory_samples(ms, m, host),
    ensures
        ms.len() == 4,
        forall|i: int| 0 <= i < ms.len() ==> memory_figure(m, (#[trigger] ms[i]).name@) == Some(ms[i].value_bits),
        forall|i: int, j: int| 0 <= i < j < ms.len() ==> (#[trigger] ms[i]).name@ != (#[trigger] ms[j]).name@,
{
    lemma_sample_names_distinct();
}

/// A process's samples report its memory, virtual memory and CPU usage once
/// each, under their own names, and each is tagged with the process's
/// command line, executable, id and working directory, and the host when
/// known.
pub proof fn law_process_samples_report_their_figures(ms: Seq<Metric>, p: ProcessReading, host: Option<String>)
    requires
        process_samples(ms, p, host),
    ensures
        ms.len() == 3,
        forall|i: int| 0 <= i < ms.len() ==> process_figure(p, (#[trigger] ms[i]).name@) == Some(ms[i].value_bits),
        forall|i: int, j: int| 0 <= i < j < ms.len() ==> (#[trigger] ms[i]).name@ != (#[trigger] ms[j]).name@,
        forall|i: int| 0 <= i < ms.len() ==> {
            let t = tag_texts_map((#[trigger] ms[i]).tags@);
            &&& t.contains_key("cmd"@) && t["cmd"@] == join_words(words_of(p.cmd@))
            &&& t.contains_key("exe"@) && t["exe"@] == p.exe@
            &&& t.contains_key("pid"@) && t["pid"@] == p.pid@
            &&& t.contains_key("cwd"@) && t["cwd"@] == p.cwd@
            &&& host matches Some(h) ==> t.contains_key("host"@) && t["host"@] == h@
            &&& host is None ==> !t.contains_key("host"@)
        },
{
    lemma_sample_names_distinct();
    lemma_tag_names_distinct();
}

/// The CPU samples report the number of cores first, then for each core in
/// turn its usage and frequency, each under its own name and tagged with the
/// core's name: a sample's value is the figure its name stands for.
pub proof fn law_cpu_samples_report_their_figures(
    ms: Seq<Metric>,
    count_bits: u64,
    cpus: Seq<CpuReading>,
    host: Option<String>,
)
    requires
        cpu_samples(ms, count_bits, cpus, host),
    ensures
        ms.len() == 1 + 2 * cpus.len(),
        ms[0].name@ == "system.cpu.count"@ && ms[0].value_bits == count_bits,
        forall|i: int, k: int| 0 <= i < cpus.len() && 1 <= k <= 2 ==> {
            let s = #[trigger] ms[2 * i + k];
            &&& cpu_figure(cpus[i], s.name@) == Some(s.value_bits)
            &&& tag_texts_map(s.tags@).contains_key("name"@)
            &&& tag_texts_map(s.tags@)["name"@] == cpus[i].name@
        },
        forall|i: int| 0 <= i < cpus.len() ==> (#[trigger] ms[2 * i + 1]).name@ != ms[2 * i + 2].name@,
{
    lemma_sample_names_distinct();
    lemma_tag_names_distinct();
    assert forall|i: int, k: int| 0 <= i < cpus.len() && 1 <= k <= 2 implies {
        let s = #[trigger] ms[2 * i + k];
        &&& cpu_figure(cpus[i], s.name@) == Some(s.value_bits)
        &&& tag_texts_map(s.tags@).contains_key("name"@)
        &&& tag_texts_map(s.tags@)["name"@] == cpus[i].name@
    } by {
        if k == 1 {
            assert(ms[1 + 2 * i] == ms[2 * i + k]);
        } else {
            assert(ms[2 + 2 * i] == ms[2 * i + k]);
        }
    }
    assert forall|i: int| 0 <= i < cpus.len() implies (#[trigger] ms[2 * i + 1]).name@ != ms[2 * i + 2].name@ by {
        assert(ms[1 + 2 * i] == ms[2 * i + 1]);
        assert(ms[2 + 2 * i] == ms[2 * i + 2]);
    }
}

/// Turns a reading of the machine into samples; every sample carries the
/// host name as tag `host` when it is known.
#[derive(Debug)]
pub struct SysinfoExecutor {
    pub system: SystemSnapshot,
}

fn clone_host(host: &Option<String>) -> (r: Option<String>)
    ensures
        r == *host,
{
    match host {
        Some(h) => Some(h.clone()),
        None => None,
    }
}

fn append_metrics(out: &mut Vec<Metric>, more: Vec<Metric>)
    ensures
        final(out)@ == old(out)@ + more@,
{
    let mut more = more;
    out.append(&mut more);
}

impl SysinfoExecutor {
    /// A sample ready to send: `metric` with the host tag added when known.
    pub fn push(&self, metric: Metric) -> (m: Metric)
        ensures
            m.name == metric.name,
            m.value_bits == metric.value_bits,
            m.timestamp == metric.timestamp,
            tag_texts_map(m.tags.view()) == host_tagged(tag_texts_map(metric.tags.view()), self.system.host_name),
    {
        let m = metric.with_optional_tag("host".to_owned(), clone_host(&self.system.host_name));
        assert(tag_texts_map(m.tags.view()) =~= host_tagged(tag_texts_map(metric.tags.view()), self.system.host_name));
        m
    }

    /// The temperature of each component, tagged with its label.
    pub fn handle_components(&self) -> (r: Vec<Metric>)
        ensures
            component_samples(r@, self.system.components@, self.system.host_name),
    {
        let components = &self.system.components;
        let mut r: Vec<Metric> = Vec::new();
        let mut i: usize = 0;
        while i < components.len()
            invariant
                components == &self.system.components,
                i <= components@.len(),
                r@.len() == i,
                forall|k: int| 0 <= k < i ==> is_sample(
                    #[trigger] r@[k],
                    "system.component.temperature"@,
                    components@[k].temperature_bits,
                    host_tagged(Map::empty().insert("name"@, components@[k].label@), self.system.host_name),
                ),
            decreases components@.len() - i,
        {
            let comp = &components[i];
            let m = Metric::now("system.component.temperature".to_owned(), comp.temperature_bits).with_tag(
                "name".to_owned(),
                comp.label.clone(),
            );
            assert(tag_texts_map(m.tags.view()) =~= Map::empty().insert("name"@, comp.label@));
            r.push(self.push(m));
            i = i + 1;
        }
        r
    }

    /// The number of cores, then the usage and the frequency of each core,
    /// tagged with its name.
    pub fn handle_cpu(&self) -> (r: Vec<Metric>)
        ensures
            cpu_samples(r@, self.system.cpu_count_bits, self.system.cpus@, self.system.host_name),
            r@[0].name@ == "system.cpu.count"@ && r@[0].value_bits == self.system.cpu_count_bits,
            forall|i: int, k: int| 0 <= i < self.system.cpus@.len() && 1 <= k <= 2 ==> cpu_figure(
                self.system.cpus@[i],
                (#[trigger] r@[2 * i + k]).name@,
            ) == Some(r@[2 * i + k].value_bits),
    {
        let cpus = &self.system.cpus;
        let host = &self.system.host_name;
        let mut r: Vec<Metric> = Vec::new();
        let count = Metric::now("system.cpu.count".to_owned(), self.system.cpu_count_bits);
        assert(tag_texts_map(count.tags.view()) =~= Map::empty());
        r.push(self.push(count));
        let mut i: usize = 0;
        while i < cpus.len()
            invariant
                cpus == &self.system.cpus,
                host == &self.system.host_name,
                i <= cpus@.len(),
                r@.len() == 1 + 2 * i,
                is_sample(r@[0], "system.cpu.count"@, self.system.cpu_count_bits, host_tagged(Map::empty(), *host)),
                forall|k: int| 0 <= k < i ==> is_sample(
                    #[trigger] r@[1 + 2 * k],
                    "system.cpu.usage"@,
                    cpus@[k].usage_bits,
                    host_tagged(Map::empty().insert("name"@, cpus@[k].name@), *host),
                ),
                forall|k: int| 0 <= k < i ==> is_sample(
                    #[trigger] r@[2 + 2 * k],
                    "system.cpu.frequency"@,
                    cpus@[k].frequency_bits,
                    host_tagged(Map::empty().insert("name"@, cpus@[k].name@), *host),
                ),
            decreases cpus@.len() - i,
        {
            let cpu = &cpus[i];
            let usage = Metric::now("system.cpu.usage".to_owned(), cpu.usage_bits).with_tag(
                "name".to_owned(),
                cpu.name.clone(),
            );
            assert(tag_texts_map(usage.tags.view()) =~= Map::empty().insert("name"@, cpu.name@));
            let frequency = Metric::now("system.cpu.frequency".to_owned(), cpu.frequency_bits).with_tag(
                "name".to_owned(),
                cpu.name.clone(),
            );
            assert(tag_texts_map(frequency.tags.view()) =~= Map::empty().insert("name"@, cpu.name@));
            let ghost before = r@;
            r.push(self.push(usage));
            r.push(self.push(frequency));
            assert forall|k: int| 0 <= k < i implies #[trigger] r@[1 + 2 * k] == before[1 + 2 * k] && r@[2
                + 2 * k] == before[2 + 2 * k] by {}
            assert(r@[0] == before[0]);
            i = i + 1;
        }
        proof {
            law_cpu_samples_report_their_figures(r@, self.system.cpu_count_bits, self.system.cpus@, *host);
        }
        r
    }

    /// Total and used memory, then total and used swap.
    pub fn handle_memory(&self) -> (r: Vec<Metric>)
        ensures
            memory_samples(r@, self.system.memory, self.system.host_name),
            r@.len() == 4,
            forall|i: int| 0 <= i < r@.len() ==> memory_figure(self.system.memory, (#[trigger] r@[i]).name@) == Some(
                r@[i].value_bits,
            ),
            forall|i: int, j: int| 0 <= i < j < r@.len() ==> (#[trigger] r@[i]).name@ != (#[trigger] r@[j]).name@,
    {
        let memory = &self.system.memory;
        let total = Metric::now("system.memory.total".to_owned(), memory.total_bits);
        let used = Metric::now("system.memory.used".to_owned(), memory.used_bits);
        let swap_total = Metric::now("system.swap.total".to_owned(), memory.swap_total_bits);
        let swap_used = Metric::now("system.swap.used".to_owned(), memory.swap_used_bits);
        assert(tag_texts_map(total.tags.view()) =~= Map::empty());
        assert(tag_texts_map(used.tags.view()) =~= Map::empty());
        assert(tag_texts_map(swap_total.tags.view()) =~= Map::empty());
        assert(tag_texts_map(swap_used.tags.view()) =~= Map::empty());
        let mut r: Vec<Metric> = Vec::new();
        r.push(self.push(total));
        r.push(self.push(used));
        r.push(self.push(swap_total));
        r.push(self.push(swap_used));
        proof {
            law_memory_samples_report_their_figures(r@, self.system.memory, self.system.host_name);
        }
        r
    }

    /// The memory, virtual memory and CPU usage of a process, each tagged
    /// with its command line, executable, id and working directory.
    pub fn handle_process(&self, process: &ProcessReading) -> (r: Vec<Metric>)
        ensures
            process_samples(r@, *process, self.system.host_name),
            r@.len() == 3,
            forall|i: int| 0 <= i < r@.len() ==> process_figure(*process, (#[trigger] r@[i]).name@) == Some(
                r@[i].value_bits,
            ),
            forall|i: int, j: int| 0 <= i < j < r@.len() ==> (#[trigger] r@[i]).name@ != (#[trigger] r@[j]).name@,
    {
        let cmd = combine_cmd(process.cmd.as_slice());
        let ghost pairs: Seq<(&'static str, String)> = seq![
            ("cmd", cmd),
            ("exe", process.exe),
            ("pid", process.pid),
            ("cwd", process.cwd),
        ];
        proof {
            reveal_with_fuel(insert_all, 5);
            assert(tag_pairs(pairs).drop_last().drop_last().drop_last().drop_last() =~= seq![]);
            assert(tag_texts_map(insert_all(Map::empty(), tag_pairs(pairs))) =~= process_tags(*process));
        }
        let memory = Metric::now("process.memory".to_owned(), process.memory_bits).with_tags(Self::tags(&cmd, process));
        let virtual_memory = Metric::now("process.virtual_memory".to_owned(), process.virtual_memory_bits).with_tags(
            Self::tags(&cmd, process),
        );
        let cpu_usage = Metric::now("process.cpu_usage".to_owned(), process.cpu_usage_bits).with_tags(
            Self::tags(&cmd, process),
        );
        let mut r: Vec<Metric> = Vec::new();
        r.push(self.push(memory));
        r.push(self.push(virtual_memory));
        r.push(self.push(cpu_usage));
        proof {
            law_process_samples_report_their_figures(r@, *process, self.system.host_name);
        }
        r
    }

    fn tags(cmd: &String, process: &ProcessReading) -> (v: Vec<(&'static str, String)>)
        ensures
            tag_pairs(v@) == tag_pairs(
                seq![("cmd", *cmd), ("exe", process.exe), ("pid", process.pid), ("cwd", process.cwd)],
            ),
    {
        let mut v: Vec<(&'static str, String)> = Vec::new();
        v.push(("cmd", cmd.clone()));
        v.push(("exe", process.exe.clone()));
        v.push(("pid", process.pid.clone()));
        v.push(("cwd", process.cwd.clone()));
        assert(tag_pairs(v@) =~= tag_pairs(
            seq![("cmd", *cmd), ("exe", process.exe), ("pid", process.pid), ("cwd", process.cwd)],
        ));
        v
    }

    /// The samples of every process, process by process.
    pub fn handle_processes(&self) -> (r: Vec<Metric>)
        ensures
            processes_samples(r@, self.system.processes@, self.system.host_name),
    {
        let processes = &self.system.processes;
        let mut r: Vec<Metric> = Vec::new();
        let mut i: usize = 0;
        while i < processes.len()
            invariant
                processes == &self.system.processes,
                i <= processes@.len(),
                r@.len() == 3 * i,
                forall|k: int| 0 <= k < i ==> process_samples(
                    #[trigger] r@.subrange(3 * k, 3 * k + 3),
                    processes@[k],
                    self.system.host_name,
                ),
            decreases processes@.len() - i,
        {
            let ghost before = r@;
            let more = self.handle_process(&processes[i]);
            let ghost added = more@;
            append_metrics(&mut r, more);
            assert(r@.subrange(3 * i as int, 3 * i + 3) =~= added);
            assert forall|k: int| 0 <= k < i implies #[trigger] r@.subrange(3 * k, 3 * k + 3) == before.subrange(
                3 * k,
                3 * k + 3,
            ) by {
                assert(r@.subrange(3 * k, 3 * k + 3) =~= before.subrange(3 * k, 3 * k + 3));
            }
            i = i + 1;
        }
        r
    }

    /// Every sample of one reading: memory, then processes, then CPU, then
    /// components.
    pub fn execute(&self) -> (r: Vec<Metric>)
        ensures
            ({
                let sys = self.system;
                let host = sys.host_name;
                let p = 4 + 3 * sys.processes@.len() as int;
                let c = p + 1 + 2 * sys.cpus@.len() as int;
                &&& r@.len() == c + sys.components@.len()
                &&& memory_samples(r@.subrange(0, 4), sys.memory, host)
                &&& processes_samples(r@.subrange(4, p), sys.processes@, host)
                &&& cpu_samples(r@.subrange(p, c), sys.cpu_count_bits, sys.cpus@, host)
                &&& component_samples(r@.subrange(c, r@.len() as int), sys.components@, host)
            }),
    {
        let mut r = self.handle_memory();
        let ghost m = r@;
        let processes = self.handle_processes();
        let ghost ps = processes@;
        append_metrics(&mut r, processes);
        let cpu = self.handle_cpu();
        let ghost cs = cpu@;
        append_metrics(&mut r, cpu);
        let components = self.handle_components();
        let ghost ks = components@;
        append_metrics(&mut r, components);
        assert(r@ =~= m + ps + cs + ks);
        assert(r@.subrange(0, 4) =~= m);
        let ghost p = 4 + ps.len() as int;
        let ghost c = p + cs.len() as int;
        assert(r@.subrange(4, p) =~= ps);
        assert(r@.subrange(p, c) =~= cs);
        assert(r@.subrange(c, r@.len() as int) =~= ks);
        r
    }
}

} // verus!
