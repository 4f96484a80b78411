use vstd::prelude::*;

verus! {

/// The character sequences of a list of strings, in order.
pub open spec fn strings_view(v: Seq<String>) -> Seq<Seq<char>> {
    v.map_values(|s: String| s@)
}

/// One mapped layer surface, as the compositor reports it.
pub struct LayerInfo {
    pub namespace: String,
}

/// Namespaces of one group of layers, in order.
pub open spec fn group_names(group: Seq<LayerInfo>) -> Seq<Seq<char>> {
    group.map_values(|l: LayerInfo| l.namespace@)
}

/// Namespaces of all groups of one output, group after group.
pub open spec fn output_names(groups: Seq<Vec<LayerInfo>>) -> Seq<Seq<char>>
    decreases groups.len(),
{
    if groups.len() == 0 {
        Seq::empty()
    } else {
        output_names(groups.drop_last()) + group_names(groups.last()@)
    }
}

/// Namespaces of all outputs, output after output.
pub open spec fn all_names(outputs: Seq<Vec<Vec<LayerInfo>>>) -> Seq<Seq<char>>
    decreases outputs.len(),
{
    if outputs.len() == 0 {
        Seq::empty()
    } else {
        all_names(outputs.drop_last()) + output_names(outputs.last()@)
    }
}

/// Every layer that the compositor has mapped at one moment: for each output,
/// for each group (layer level) of it, the layers of that group in order.
pub struct Snapshot {
    pub outputs: Vec<Vec<Vec<LayerInfo>>>,
}

impl View for Snapshot {
    /// The namespaces of all layers, in traversal order.
    type V = Seq<Seq<char>>;

    open spec fn view(&self) -> Seq<Seq<char>> {
        all_names(self.outputs@)
    }
}

impl LayerInfo {
    pub fn new(namespace: String) -> (r: LayerInfo)
        ensures
            r.namespace == namespace,
    {
        LayerInfo { namespace }
    }
}

fn append_group(out: &mut Vec<String>, group: &Vec<LayerInfo>)
    ensures
        strings_view(final(out)@) == strings_view(old(out)@) + group_names(group@),
{
    let ghost start = strings_view(out@);
    let mut i: usize = 0;
    while i < group.len()
        invariant
            i <= group@.len(),
            strings_view(out@) == start + group_names(group@.subrange(0, i as int)),
        decreases group@.len() - i,
    {
        let ghost prev = out@;
        let name = group[i].namespace.clone();
        out.push(name);
        proof {
            assert(strings_view(out@) =~= strings_view(prev).push(name@));
            assert(group_names(group@.subrange(0, i + 1)) =~= group_names(
                group@.subrange(0, i as int),
            ).push(group@[i as int].namespace@));
            assert(strings_view(out@) =~= start + group_names(group@.subrange(0, i + 1)));
        }
        i = i + 1;
    }
    proof {
        assert(group@.subrange(0, i as int) =~= group@);
    }
}

fn append_output(out: &mut Vec<String>, groups: &Vec<Vec<LayerInfo>>)
    ensures
        strings_view(final(out)@) == strings_view(old(out)@) + output_names(groups@),
{
    let ghost start = strings_view(out@);
    let mut i: usize = 0;
    proof {
        assert(start + output_names(groups@.subrange(0, 0)) =~= start);
    }
    while i < groups.len()
        invariant
            i <= groups@.len(),
            strings_view(out@) == start + output_names(groups@.subrange(0, i as int)),
        decreases groups@.len() - i,
    {
        append_group(out, &groups[i]);
        proof {
            let next = groups@.subrange(0, i + 1);
            assert(next.drop_last() =~= groups@.subrange(0, i as int));
            assert(strings_view(out@) =~= start + output_names(next));
        }
        i = i + 1;
    }
    proof {
        assert(groups@.subrange(0, i as int) =~= groups@);
    }
}

impl Snapshot {
    /// A snapshot with no layer at all.
    pub fn new() -> (r: Snapshot)
        ensures
            r@ == Seq::<Seq<char>>::empty(),
    {
        Snapshot { outputs: Vec::new() }
    }

    /// A snapshot of one output with one group that holds the given
    /// namespaces, in order.
    pub fn from_namespaces(names: Vec<String>) -> (r: Snapshot)
        ensures
            r@ == strings_view(names@),
    {
        let mut group: Vec<LayerInfo> = Vec::new();
        let mut i: usize = 0;
        while i < names.len()
            invariant
                i <= names@.len(),
                group_names(group@) == strings_view(names@.subrange(0, i as int)),
            decreases names@.len() - i,
        {
            let ghost prev = group@;
            let info = LayerInfo::new(names[i].clone());
            group.push(info);
            proof {
                assert(group_names(group@) =~= group_names(prev).push(info.namespace@));
                assert(strings_view(names@.subrange(0, i + 1)) =~= strings_view(
                    names@.subrange(0, i as int),
                ).push(names@[i as int]@));
            }
            i = i + 1;
        }
        let ghost layers = group@;
        let mut groups: Vec<Vec<LayerInfo>> = Vec::new();
        groups.push(group);
        let ghost levels = groups@;
        let mut outputs: Vec<Vec<Vec<LayerInfo>>> = Vec::new();
        outputs.push(groups);
        let r = Snapshot { outputs };
        proof {
            assert(names@.subrange(0, i as int) =~= names@);
            assert(levels.drop_last() =~= Seq::<Vec<LayerInfo>>::empty());
            assert(levels.last()@ == layers);
            assert(output_names(levels.drop_last()) == Seq::<Seq<char>>::empty());
            assert(output_names(levels) =~= Seq::<Seq<char>>::empty() + group_names(layers));
            assert(r.outputs@.drop_last() =~= Seq::<Vec<Vec<LayerInfo>>>::empty());
            assert(r.outputs@.last()@ == levels);
            assert(all_names(r.outputs@.drop_last()) == Seq::<Seq<char>>::empty());
            assert(r@ =~= Seq::<Seq<char>>::empty() + output_names(levels));
        }
        r
    }

    /// The namespaces of all layers, in traversal order: output by output,
    /// group by group, layer by layer.
    pub fn namespaces(&self) -> (r: Vec<String>)
        ensures
            strings_view(r@) == self@,
    {
        let mut out: Vec<String> = Vec::new();
        let mut i: usize = 0;
        proof {
            assert(strings_view(out@) =~= all_names(self.outputs@.subrange(0, 0)));
        }
        while i < self.outputs.len()
            invariant
                i <= self.outputs@.len(),
                strings_view(out@) == all_names(self.outputs@.subrange(0, i as int)),
            decreases self.outputs@.len() - i,
        {
            append_output(&mut out, &self.outputs[i]);
            proof {
                let next = self.outputs@.subrange(0, i + 1);
                assert(next.drop_last() =~= self.outputs@.subrange(0, i as int));
            }
            i = i + 1;
        }
        proof {
            assert(self.outputs@.subrange(0, i as int) =~= self.outputs@);
        }
        out
    }
}

} // verus!
