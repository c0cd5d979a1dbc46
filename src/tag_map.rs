use vstd::prelude::*;

verus! {

/// A tag attached to a monitor; only `name` takes part in grouping.
#[derive(Clone, Debug)]
pub struct ServiceTag {
    pub id: i32,
    pub name: String,
    pub tag_id: i32,
    pub value: String,
}

/// A monitor of the backend, with its tags in the order the backend lists them.
#[derive(Clone, Debug)]
pub struct ServiceInfo {
    pub id: i32,
    pub name: String,
    pub url: String,
    pub tags: Vec<ServiceTag>,
}

/// How many of `tags` are named `tag`.
pub open spec fn tag_count(tags: Seq<ServiceTag>, tag: Seq<char>) -> nat
    decreases tags.len(),
{
    if tags.len() == 0 {
        0
    } else {
        tag_count(tags.drop_last(), tag) + if tags.last().name@ == tag {
            1nat
        } else {
            0nat
        }
    }
}

/// `name`, `n` times over.
pub open spec fn repeated(name: Seq<char>, n: nat) -> Seq<Seq<char>> {
    Seq::new(n, |_i: int| name)
}

/// The names of the monitors that carry `tag`: one entry for each (monitor, tag)
/// pair, in the order the monitors and their tags are supplied.
pub open spec fn members_for(services: Seq<ServiceInfo>, tag: Seq<char>) -> Seq<Seq<char>>
    decreases services.len(),
{
    if services.len() == 0 {
        seq![]
    } else {
        members_for(services.drop_last(), tag) + repeated(
            services.last().name@,
            tag_count(services.last().tags@, tag),
        )
    }
}

/// Whether some monitor of `services` carries a tag named `tag`.
pub open spec fn has_tag(services: Seq<ServiceInfo>, tag: Seq<char>) -> bool {
    exists|i: int, j: int|
        0 <= i < services.len() && 0 <= j < services[i].tags@.len()
            && #[trigger] services[i].tags@[j].name@ == tag
}

/// The tag map of a monitor list: every tag name that occurs, mapped to its members.
pub open spec fn tag_map_of(services: Seq<ServiceInfo>) -> Map<Seq<char>, Seq<Seq<char>>> {
    Map::new(|t: Seq<char>| has_tag(services, t), |t: Seq<char>| members_for(services, t))
}

/// Map from tag name to the names of the monitors that carry it.
#[derive(Clone, Debug)]
pub struct TagMap {
    names: Vec<String>,
    members: Vec<Vec<String>>,
}

impl View for TagMap {
    type V = Map<Seq<char>, Seq<Seq<char>>>;

    closed spec fn view(&self) -> Map<Seq<char>, Seq<Seq<char>>> {
        Map::new(
            |t: Seq<char>| exists|k: int| 0 <= k < self.names.len() && #[trigger] self.names[k]@ == t,
            |t: Seq<char>|
                self.members[choose|k: int|
                    0 <= k < self.names.len() && #[trigger] self.names[k]@ == t].deep_view(),
        )
    }
}

impl TagMap {
    /// The two vectors run in parallel and no tag name occurs twice.
    pub closed spec fn wf(&self) -> bool {
        &&& self.names.len() == self.members.len()
        &&& forall|a: int, b: int|
            0 <= a < self.names.len() && 0 <= b < self.names.len() && a != b
                ==> #[trigger] self.names[a]@ != #[trigger] self.names[b]@
    }

    proof fn lemma_entry(&self, k: int)
        requires
            self.wf(),
            0 <= k < self.names.len(),
        ensures
            self@.contains_key(self.names[k]@),
            self@[self.names[k]@] == self.members[k].deep_view(),
    {
        let t = self.names[k]@;
        assert(self@.dom().contains(t));
        let c = choose|c: int| 0 <= c < self.names.len() && #[trigger] self.names[c]@ == t;
        assert(c == k);
    }

    /// An empty map.
    pub fn new() -> (r: TagMap)
        ensures
            r.wf(),
            r@ == Map::<Seq<char>, Seq<Seq<char>>>::empty(),
    {
        let r = TagMap { names: Vec::new(), members: Vec::new() };
        assert(r@ =~= Map::<Seq<char>, Seq<Seq<char>>>::empty());
        r
    }

    /// Position of `tag` among the stored names.
    fn find(&self, tag: &String) -> (r: Option<usize>)
        requires
            self.wf(),
        ensures
            match r {
                Some(k) => k < self.names.len() && self.names[k as int]@ == tag@,
                None => forall|k: int| 0 <= k < self.names.len() ==> self.names[k]@ != tag@,
            },
    {
        let mut k: usize = 0;
        while k < self.names.len()
            invariant
                k <= self.names.len(),
                forall|c: int| 0 <= c < k ==> self.names[c]@ != tag@,
            decreases self.names.len() - k,
        {
            if self.names[k] == *tag {
                return Some(k);
            }
            k = k + 1;
        }
        None
    }

    /// Number of tags in the map.
    pub fn len(&self) -> (r: usize)
        requires
            self.wf(),
        ensures
            r == self@.len(),
    {
        proof { self.lemma_domain(); }
        self.names.len()
    }

    proof fn lemma_domain(&self)
        requires
            self.wf(),
        ensures
            self@.dom() == self.names@.map_values(|s: String| s@).to_set(),
            self@.dom().finite(),
            self@.len() == self.names.len(),
    {
        let ns = self.names@.map_values(|s: String| s@);
        assert(ns.no_duplicates());
        ns.unique_seq_to_set();
        assert forall|u: Seq<char>| self@.dom().contains(u) <==> #[trigger] ns.to_set().contains(u) by {
            if self@.dom().contains(u) {
                let k = choose|k: int| 0 <= k < self.names.len() && #[trigger] self.names[k]@ == u;
                assert(ns[k] == u);
            }
            if ns.contains(u) {
                let k = choose|k: int| 0 <= k < ns.len() && ns[k] == u;
                assert(self.names[k]@ == u);
            }
        }
        assert(self@.dom() =~= ns.to_set());
    }

    /// The members of `tag`, if the map holds it.
    pub fn get(&self, tag: &String) -> (r: Option<&Vec<String>>)
        requires
            self.wf(),
        ensures
            r is Some <==> self@.contains_key(tag@),
            r matches Some(v) ==> v.deep_view() == self@[tag@],
    {
        match self.find(tag) {
            Some(k) => {
                proof { self.lemma_entry(k as int); }
                Some(&self.members[k])
            },
            None => None,
        }
    }

    proof fn lemma_set_at(pre: &TagMap, post: &TagMap, k: int)
        requires
            pre.wf(),
            0 <= k < pre.names.len(),
            post.names@ == pre.names@,
            post.members.len() == pre.members.len(),
            forall|c: int| 0 <= c < pre.members.len() && c != k ==> post.members[c] == pre.members[c],
        ensures
            post.wf(),
            post@ == pre@.insert(pre.names[k]@, post.members[k].deep_view()),
    {
        let t = pre.names[k]@;
        let m = post.members[k].deep_view();
        post.lemma_entry(k);
        assert forall|u: Seq<char>| #[trigger] post@.contains_key(u) <==> pre@.insert(t, m).contains_key(u) by {
            if u != t && pre@.contains_key(u) {
                let c = choose|c: int| 0 <= c < pre.names.len() && #[trigger] pre.names[c]@ == u;
                assert(post.names[c]@ == u);
            }
            if post@.contains_key(u) {
                let c = choose|c: int| 0 <= c < post.names.len() && #[trigger] post.names[c]@ == u;
                assert(pre.names[c]@ == u);
            }
        }
        assert forall|u: Seq<char>| #[trigger] post@.contains_key(u) implies post@[u] == pre@.insert(t, m)[u] by {
            let c = choose|c: int| 0 <= c < post.names.len() && #[trigger] post.names[c]@ == u;
            post.lemma_entry(c);
            pre.lemma_entry(c);
        }
        assert(post@ =~= pre@.insert(t, m));
    }

    proof fn lemma_pushed(pre: &TagMap, post: &TagMap)
        requires
            pre.wf(),
            post.names.len() == pre.names.len() + 1,
            post.members.len() == pre.members.len() + 1,
            post.names@.drop_last() == pre.names@,
            post.members@.drop_last() == pre.members@,
            !pre@.contains_key(post.names@.last()@),
        ensures
            post.wf(),
            post@ == pre@.insert(post.names@.last()@, post.members@.last().deep_view()),
    {
        let n = pre.names.len() as int;
        let t = post.names[n]@;
        let m = post.members[n].deep_view();
        assert forall|c: int| 0 <= c < n implies #[trigger] post.names[c] == pre.names[c] by {
            assert(post.names@.drop_last()[c] == post.names[c]);
        }
        assert forall|c: int| 0 <= c < n implies #[trigger] post.members[c] == pre.members[c] by {
            assert(post.members@.drop_last()[c] == post.members[c]);
        }
        assert forall|c: int| 0 <= c < n implies #[trigger] pre.names[c]@ != t by {
            if pre.names[c]@ == t {
                assert(pre@.dom().contains(t));
            }
        }
        assert(post.wf());
        post.lemma_entry(n);
        assert forall|u: Seq<char>| #[trigger] post@.contains_key(u) <==> pre@.insert(t, m).contains_key(u) by {
            if u != t && pre@.contains_key(u) {
                let c = choose|c: int| 0 <= c < pre.names.len() && #[trigger] pre.names[c]@ == u;
                assert(post.names[c]@ == u);
            }
            if u != t && post@.contains_key(u) {
                let c = choose|c: int| 0 <= c < post.names.len() && #[trigger] post.names[c]@ == u;
                assert(pre.names[c]@ == u);
            }
        }
        assert forall|u: Seq<char>| #[trigger] post@.contains_key(u) implies post@[u] == pre@.insert(t, m)[u] by {
            let c = choose|c: int| 0 <= c < post.names.len() && #[trigger] post.names[c]@ == u;
            post.lemma_entry(c);
            if c < n {
                pre.lemma_entry(c);
            }
        }
        assert(post@ =~= pre@.insert(t, m));
    }

    /// Sets the members of `tag`, replacing any that it had.
    pub fn insert(&mut self, tag: String, services: Vec<String>)
        requires
            old(self).wf(),
        ensures
            final(self).wf(),
            final(self)@ == old(self)@.insert(tag@, services.deep_view()),
    {
        match self.find(&tag) {
            Some(k) => {
                self.members[k] = services;
                proof { TagMap::lemma_set_at(old(self), self, k as int); }
            },
            None => {
                proof {
                    if old(self)@.contains_key(tag@) {
                        let c = choose|c: int| 0 <= c < self.names.len() && #[trigger] self.names[c]@ == tag@;
                    }
                }
                self.names.push(tag);
                self.members.push(services);
                proof {
                    assert(self.names@.drop_last() =~= old(self).names@);
                    assert(self.members@.drop_last() =~= old(self).members@);
                    TagMap::lemma_pushed(old(self), self);
                }
            },
        }
    }

    /// Appends `name` to the members of `tag`, adding the tag when it is new.
    fn append_member(&mut self, tag: &String, name: String)
        requires
            old(self).wf(),
        ensures
            final(self).wf(),
            final(self)@ == old(self)@.insert(tag@, members_or_empty(old(self)@, tag@).push(name@)),
    {
        match self.find(tag) {
            Some(k) => {
                proof { self.lemma_entry(k as int); }
                self.members[k].push(name);
                proof {
                    TagMap::lemma_set_at(old(self), self, k as int);
                    assert(self.members[k as int].deep_view() =~= old(self).members[k as int].deep_view().push(name@));
                }
            },
            None => {
                proof {
                    if old(self)@.contains_key(tag@) {
                        let c = choose|c: int| 0 <= c < self.names.len() && #[trigger] self.names[c]@ == tag@;
                    }
                }
                let mut members: Vec<String> = Vec::new();
                members.push(name);
                self.names.push(tag.clone());
                self.members.push(members);
                proof {
                    assert(self.names@.drop_last() =~= old(self).names@);
                    assert(self.members@.drop_last() =~= old(self).members@);
                    TagMap::lemma_pushed(old(self), self);
                    assert(members.deep_view() =~= seq![name@]);
                }
            },
        }
    }
}

/// The members of `tag` in `m`, or none where `m` lacks it.
pub open spec fn members_or_empty(m: Map<Seq<char>, Seq<Seq<char>>>, tag: Seq<char>) -> Seq<Seq<char>> {
    if m.contains_key(tag) {
        m[tag]
    } else {
        seq![]
    }
}

/// Groups monitor names by tag name: for each monitor in order, and each of its
/// tags in order, the monitor's name is appended under the tag's name.
pub fn build_tags_map(services: Vec<ServiceInfo>) -> (r: TagMap)
    ensures
        r.wf(),
        r@ == tag_map_of(services@),
{
    let mut tag_map = TagMap::new();
    let n: usize = services.len();
    for i in 0..n
        invariant
            n == services.len(),
            tag_map.wf(),
            forall|t: Seq<char>|
                #[trigger] tag_map@.contains_key(t) <==> has_tag(services@.take(i as int), t),
            forall|t: Seq<char>|
                #[trigger] members_or_empty(tag_map@, t) == members_for(services@.take(i as int), t),
    {
        let service = &services[i];
        let ghost pre = services@.take(i as int);
        let ghost post = services@.take(i + 1);
        let m: usize = service.tags.len();
        for j in 0..m
            invariant
                n == services.len(),
                i < n,
                service == services[i as int],
                m == service.tags.len(),
                pre == services@.take(i as int),
                tag_map.wf(),
                forall|t: Seq<char>|
                    #[trigger] tag_map@.contains_key(t) <==> (has_tag(pre, t) || exists|jj: int|
                        0 <= jj < j && #[trigger] service.tags@[jj].name@ == t),
                forall|t: Seq<char>|
                    #[trigger] members_or_empty(tag_map@, t) == members_for(pre, t) + repeated(
                        service.name@,
                        tag_count(service.tags@.take(j as int), t),
                    ),
        {
            let tag = &service.tags[j];
            let ghost before = tag_map@;
            tag_map.append_member(&tag.name, service.name.clone());
            proof {
                let tags = service.tags@;
                assert(tags.take(j + 1).drop_last() =~= tags.take(j as int));
                assert forall|t: Seq<char>|
                    #[trigger] members_or_empty(tag_map@, t) == members_for(pre, t) + repeated(
                        service.name@,
                        tag_count(tags.take(j + 1), t),
                    ) by {
                    if t == tag.name@ {
                        assert(repeated(service.name@, tag_count(tags.take(j + 1), t)) =~= repeated(
                            service.name@,
                            tag_count(tags.take(j as int), t),
                        ).push(service.name@));
                        assert(members_or_empty(tag_map@, t) == members_or_empty(before, t).push(service.name@));
                        assert((members_for(pre, t) + repeated(service.name@, tag_count(tags.take(j as int), t))).push(service.name@)
                            =~= members_for(pre, t) + repeated(service.name@, tag_count(tags.take(j + 1), t)));
                    } else {
                        assert(members_or_empty(tag_map@, t) == members_or_empty(before, t));
                    }
                }
                assert forall|t: Seq<char>|
                    #[trigger] tag_map@.contains_key(t) <==> (has_tag(pre, t) || exists|jj: int|
                        0 <= jj < j + 1 && #[trigger] service.tags@[jj].name@ == t) by {
                    if t == tag.name@ {
                        assert(service.tags@[j as int].name@ == t);
                    } else if exists|jj: int| 0 <= jj < j + 1 && #[trigger] service.tags@[jj].name@ == t {
                        let jj = choose|jj: int| 0 <= jj < j + 1 && #[trigger] service.tags@[jj].name@ == t;
                        assert(jj < j);
                    }
                }
            }
        }
        proof {
            let tags = service.tags@;
            assert(tags.take(m as int) =~= tags);
            assert(post.drop_last() =~= pre);
            assert(post.last() == services@[i as int]);
            assert forall|t: Seq<char>|
                #[trigger] tag_map@.contains_key(t) <==> has_tag(post, t) by {
                if has_tag(post, t) {
                    let (a, b) = choose|a: int, b: int|
                        0 <= a < post.len() && 0 <= b < post[a].tags@.len()
                            && #[trigger] post[a].tags@[b].name@ == t;
                    if a < i {
                        assert(pre[a] == post[a]);
                        assert(pre[a].tags@[b].name@ == t);
                    } else {
                        assert(service.tags@[b].name@ == t);
                    }
                }
                if has_tag(pre, t) {
                    let (a, b) = choose|a: int, b: int|
                        0 <= a < pre.len() && 0 <= b < pre[a].tags@.len()
                            && #[trigger] pre[a].tags@[b].name@ == t;
                    assert(post[a] == pre[a]);
                    assert(post[a].tags@[b].name@ == t);
                }
                if exists|jj: int| 0 <= jj < m && #[trigger] service.tags@[jj].name@ == t {
                    let jj = choose|jj: int| 0 <= jj < m && #[trigger] service.tags@[jj].name@ == t;
                    assert(post[i as int].tags@[jj].name@ == t);
                }
            }
            assert forall|t: Seq<char>|
                #[trigger] members_or_empty(tag_map@, t) == members_for(post, t) by {
            }
        }
    }
    proof {
        assert(services@.take(n as int) =~= services@);
        assert forall|t: Seq<char>| #[trigger] tag_map@.contains_key(t) implies tag_map@[t] == members_for(services@, t) by {
            assert(members_or_empty(tag_map@, t) == members_for(services@.take(n as int), t));
        }
        assert(tag_map@ =~= tag_map_of(services@));
    }
    tag_map
}

/// The keys of a monitor list's tag map are exactly the tag names that occur on
/// its monitors. Supplying one more monitor leaves every member list as it was
/// and appends that monitor's name once for each of its tags of that name, so
/// each member list follows the order in which monitors were supplied and keeps
/// repeats.
pub proof fn lemma_tag_map_keys_and_order(services: Seq<ServiceInfo>, next: ServiceInfo, tag: Seq<char>)
    ensures
        tag_map_of(services).contains_key(tag) <==> (exists|i: int, j: int|
            0 <= i < services.len() && 0 <= j < services[i].tags@.len()
                && #[trigger] services[i].tags@[j].name@ == tag),
        members_or_empty(tag_map_of(services.push(next)), tag) == members_or_empty(
            tag_map_of(services),
            tag,
        ) + repeated(next.name@, tag_count(next.tags@, tag)),
{
    let more = services.push(next);
    assert(more.drop_last() =~= services);
    lemma_absent_members_empty(services);
    lemma_absent_members_empty(more);
    if has_tag(services, tag) {
        let (a, b) = choose|a: int, b: int|
            0 <= a < services.len() && 0 <= b < services[a].tags@.len()
                && #[trigger] services[a].tags@[b].name@ == tag;
        assert(more[a].tags@[b].name@ == tag);
    }
    if !has_tag(services, tag) && has_tag(more, tag) {
        let (a, b) = choose|a: int, b: int|
            0 <= a < more.len() && 0 <= b < more[a].tags@.len()
                && #[trigger] more[a].tags@[b].name@ == tag;
        if a < services.len() {
            assert(services[a].tags@[b].name@ == tag);
        }
    }
    if !has_tag(more, tag) {
        assert forall|b: int| 0 <= b < next.tags@.len() implies #[trigger] next.tags@[b].name@ != tag by {
            assert(more[services.len() as int].tags@[b].name@ != tag);
        }
        lemma_tag_count_absent(next.tags@, tag);
        assert(repeated(next.name@, 0) =~= Seq::<Seq<char>>::empty());
    }
    assert(more.last() == next);
    assert(members_for(more, tag) == members_for(services, tag) + repeated(next.name@, tag_count(next.tags@, tag)));
    assert(tag_map_of(more).contains_key(tag) == has_tag(more, tag));
    assert(tag_map_of(services).contains_key(tag) == has_tag(services, tag));
    assert(Seq::<Seq<char>>::empty() + repeated(next.name@, tag_count(next.tags@, tag)) =~= repeated(next.name@, tag_count(next.tags@, tag)));
}

/// A tag that no monitor carries has no members.
proof fn lemma_absent_members_empty(services: Seq<ServiceInfo>)
    ensures
        forall|t: Seq<char>| !has_tag(services, t) ==> #[trigger] members_for(services, t) == Seq::<Seq<char>>::empty(),
    decreases services.len(),
{
    if services.len() > 0 {
        let pre = services.drop_last();
        lemma_absent_members_empty(pre);
        assert forall|t: Seq<char>| !has_tag(services, t) implies #[trigger] members_for(services, t) == Seq::<Seq<char>>::empty() by {
            assert forall|a: int, b: int| 0 <= a < pre.len() && 0 <= b < pre[a].tags@.len() implies
                #[trigger] pre[a].tags@[b].name@ != t by {
                assert(services[a].tags@[b].name@ != t);
            }
            lemma_tag_count_absent(services.last().tags@, t);
            assert(repeated(services.last().name@, 0) =~= Seq::<Seq<char>>::empty());
            assert(members_for(pre, t) + Seq::<Seq<char>>::empty() =~= members_for(pre, t));
        }
    }
}

/// A tag name that does not occur among `tags` is counted zero times.
proof fn lemma_tag_count_absent(tags: Seq<ServiceTag>, t: Seq<char>)
    requires
        forall|b: int| 0 <= b < tags.len() ==> #[trigger] tags[b].name@ != t,
    ensures
        tag_count(tags, t) == 0,
    decreases tags.len(),
{
    if tags.len() > 0 {
        let pre = tags.drop_last();
        assert forall|b: int| 0 <= b < pre.len() implies #[trigger] pre[b].name@ != t by {
            assert(tags[b].name@ != t);
        }
        lemma_tag_count_absent(pre, t);
    }
}

} // verus!
