//! The API gateway's social data: profiles, posts and follow lists, and the operations
//! that the GraphQL schema serves from them.
use vstd::prelude::*;
use crate::auth::{AuthManager, StoredUser, password_hash_text, token_for};
use crate::keyed::{KeyedVec, Snapshot, key_index};
use crate::random::{is_uuid_v4_text, new_uuid};
use crate::text::{chars_of, contains_chars, has_substring, lowercase, to_lowercase};
use crate::time::{Timestamp, now};

verus! {

/// The views of a sequence of strings.
pub open spec fn str_views(s: Seq<String>) -> Seq<Seq<char>> {
    s.map_values(|x: String| x@)
}

/// The view of an optional string.
pub open spec fn opt_view(o: Option<String>) -> Option<Seq<char>> {
    match o {
        Some(s) => Some(s@),
        None => None,
    }
}

fn copy_opt(o: &Option<String>) -> (r: Option<String>)
    ensures
        opt_view(r) == opt_view(*o),
{
    match o {
        Some(s) => Some(s.clone()),
        None => None,
    }
}

fn copy_strings(v: &Vec<String>) -> (r: Vec<String>)
    ensures
        str_views(r@) == str_views(v@),
{
    let r = v.clone();
    assert(r@ =~= v@);
    r
}

/// A user's public profile.
#[derive(Debug)]
pub struct Profile {
    pub peer_id: String,
    pub display_name: String,
    pub bio: Option<String>,
    pub avatar_cid: Option<String>,
    pub follower_count: u32,
    pub following_count: u32,
    pub post_count: u32,
}

/// What a profile holds, as plain values.
pub struct ProfileView {
    pub peer_id: Seq<char>,
    pub display_name: Seq<char>,
    pub bio: Option<Seq<char>>,
    pub avatar_cid: Option<Seq<char>>,
    pub follower_count: u32,
    pub following_count: u32,
    pub post_count: u32,
}

impl View for Profile {
    type V = ProfileView;

    open spec fn view(&self) -> ProfileView {
        ProfileView {
            peer_id: self.peer_id@,
            display_name: self.display_name@,
            bio: opt_view(self.bio),
            avatar_cid: opt_view(self.avatar_cid),
            follower_count: self.follower_count,
            following_count: self.following_count,
            post_count: self.post_count,
        }
    }
}

impl Snapshot for Profile {
    fn snapshot(&self) -> (r: Profile) {
        Profile {
            peer_id: self.peer_id.clone(),
            display_name: self.display_name.clone(),
            bio: copy_opt(&self.bio),
            avatar_cid: copy_opt(&self.avatar_cid),
            follower_count: self.follower_count,
            following_count: self.following_count,
            post_count: self.post_count,
        }
    }
}

/// The profile shown for a peer that has none: its peer id as name and nothing else.
pub open spec fn placeholder_profile(peer_id: Seq<char>, display_name: Seq<char>) -> ProfileView {
    ProfileView {
        peer_id,
        display_name,
        bio: None,
        avatar_cid: None,
        follower_count: 0,
        following_count: 0,
        post_count: 0,
    }
}

impl Profile {
    /// A fresh profile with the given id and name and no other data.
    pub fn fresh(peer_id: &str, display_name: &str) -> (p: Profile)
        ensures
            p@ == placeholder_profile(peer_id@, display_name@),
    {
        Profile {
            peer_id: peer_id.to_owned(),
            display_name: display_name.to_owned(),
            bio: None,
            avatar_cid: None,
            follower_count: 0,
            following_count: 0,
            post_count: 0,
        }
    }
}

/// A post as the gateway serves it.
#[derive(Debug)]
pub struct Post {
    pub cid: String,
    pub author: String,
    pub content: String,
    pub media: Vec<String>,
    pub parent: Option<String>,
    pub reply_count: u32,
    pub like_count: u32,
    pub timestamp: Timestamp,
    pub signature: Vec<u8>,
}

/// What a post holds, as plain values.
pub struct PostView {
    pub cid: Seq<char>,
    pub author: Seq<char>,
    pub content: Seq<char>,
    pub media: Seq<Seq<char>>,
    pub parent: Option<Seq<char>>,
    pub reply_count: u32,
    pub like_count: u32,
    pub timestamp: Timestamp,
    pub signature: Seq<u8>,
}

impl View for Post {
    type V = PostView;

    open spec fn view(&self) -> PostView {
        PostView {
            cid: self.cid@,
            author: self.author@,
            content: self.content@,
            media: str_views(self.media@),
            parent: opt_view(self.parent),
            reply_count: self.reply_count,
            like_count: self.like_count,
            timestamp: self.timestamp,
            signature: self.signature@,
        }
    }
}

impl Snapshot for Post {
    fn snapshot(&self) -> (r: Post) {
        let signature = self.signature.clone();
        assert(signature@ =~= self.signature@);
        Post {
            cid: self.cid.clone(),
            author: self.author.clone(),
            content: self.content.clone(),
            media: copy_strings(&self.media),
            parent: copy_opt(&self.parent),
            reply_count: self.reply_count,
            like_count: self.like_count,
            timestamp: self.timestamp,
            signature,
        }
    }
}

/// The views of a sequence of posts.
pub open spec fn post_views(s: Seq<Post>) -> Seq<PostView> {
    s.map_values(|p: Post| p@)
}

/// The views of a sequence of profiles.
pub open spec fn profile_views(s: Seq<Profile>) -> Seq<ProfileView> {
    s.map_values(|p: Profile| p@)
}

/// `sorted` with `p` inserted after every post at least as new as `p` and before the
/// older ones.
pub open spec fn insert_by_time(sorted: Seq<PostView>, p: PostView) -> Seq<PostView>
    decreases sorted.len(),
{
    if sorted.len() == 0 {
        seq![p]
    } else if sorted.last().timestamp.earlier(p.timestamp) {
        insert_by_time(sorted.drop_last(), p).push(sorted.last())
    } else {
        sorted.push(p)
    }
}

/// `s` ordered newest first; posts with equal timestamps keep their relative order.
pub open spec fn newest_first(s: Seq<PostView>) -> Seq<PostView>
    decreases s.len(),
{
    if s.len() == 0 {
        s
    } else {
        insert_by_time(newest_first(s.drop_last()), s.last())
    }
}

proof fn lemma_insert_by_time_at(s: Seq<PostView>, p: PostView, pos: int)
    requires
        0 <= pos <= s.len(),
        forall|j: int| pos <= j < s.len() ==> #[trigger] s[j].timestamp.earlier(p.timestamp),
        pos > 0 ==> !s[pos - 1].timestamp.earlier(p.timestamp),
    ensures
        insert_by_time(s, p) == s.insert(pos, p),
    decreases s.len(),
{
    if s.len() == 0 {
        assert(s.insert(pos, p) =~= seq![p]);
    } else if s.last().timestamp.earlier(p.timestamp) {
        assert(pos < s.len());
        lemma_insert_by_time_at(s.drop_last(), p, pos);
        assert(s.drop_last().insert(pos, p).push(s.last()) =~= s.insert(pos, p));
    } else {
        assert(pos == s.len());
        assert(s.push(p) =~= s.insert(pos, p));
    }
}

/// `posts` ordered newest first, keeping the given order among equal timestamps.
pub fn sort_newest_first(posts: Vec<Post>) -> (r: Vec<Post>)
    ensures
        post_views(r@) == newest_first(post_views(posts@)),
{
    let mut out: Vec<Post> = Vec::new();
    let ghost input = post_views(posts@);
    assert(input.take(0) =~= Seq::<PostView>::empty());
    let mut i: usize = 0;
    let n = posts.len();
    while i < n
        invariant
            n == input.len(),
            input == post_views(posts@),
            i <= n,
            post_views(out@) == newest_first(input.take(i as int)),
        decreases n - i,
    {
        let p = posts[i].snapshot();
        let ghost sorted = post_views(out@);
        let mut pos: usize = out.len();
        while pos > 0 && out[pos - 1].timestamp.is_earlier(&p.timestamp)
            invariant
                pos <= out@.len(),
                sorted == post_views(out@),
                forall|j: int| pos <= j < out@.len() ==> #[trigger] sorted[j].timestamp.earlier(p.timestamp),
            decreases pos,
        {
            pos = pos - 1;
        }
        proof {
            lemma_insert_by_time_at(sorted, p@, pos as int);
            assert(input.take(i + 1).drop_last() =~= input.take(i as int));
        }
        out.insert(pos, p);
        assert(post_views(out@) =~= sorted.insert(pos as int, p@));
        i = i + 1;
    }
    assert(input.take(n as int) =~= input);
    out
}

/// `s` without the elements equal to `x`, the others in order.
pub open spec fn without(s: Seq<Seq<char>>, x: Seq<char>) -> Seq<Seq<char>>
    decreases s.len(),
{
    if s.len() == 0 {
        s
    } else if s.last() == x {
        without(s.drop_last(), x)
    } else {
        without(s.drop_last(), x).push(s.last())
    }
}

/// `list` without the names equal to `x`.
fn retain_other(list: &Vec<String>, x: &str) -> (r: Vec<String>)
    ensures
        str_views(r@) == without(str_views(list@), x@),
{
    let key = x.to_owned();
    let mut r: Vec<String> = Vec::new();
    let ghost full = str_views(list@);
    assert(full.take(0) =~= Seq::<Seq<char>>::empty());
    for i in 0..list.len()
        invariant
            key@ == x@,
            full == str_views(list@),
            str_views(r@) == without(full.take(i as int), x@),
    {
        assert(full.take(i + 1).drop_last() =~= full.take(i as int));
        if list[i] != key {
            let ghost before = r@;
            r.push(list[i].clone());
            assert(str_views(r@) =~= str_views(before).push(list@[i as int]@));
        }
    }
    assert(full.take(list@.len() as int) =~= full);
    r
}

/// In-memory storage of the gateway's profiles, posts and follow lists.
pub struct InMemoryStore {
    profiles: KeyedVec<Profile>,
    posts: KeyedVec<Post>,
    followers: KeyedVec<Vec<String>>,
    following: KeyedVec<Vec<String>>,
}

/// The names in a follow list, or nothing when there is no list.
pub open spec fn list_or_empty(m: Map<Seq<char>, Seq<String>>, k: Seq<char>) -> Seq<Seq<char>> {
    if m.contains_key(k) {
        str_views(m[k])
    } else {
        Seq::empty()
    }
}

impl InMemoryStore {
    /// The store's parts are well formed.
    pub closed spec fn wf(&self) -> bool {
        &&& self.profiles.wf()
        &&& self.posts.wf()
        &&& self.followers.wf()
        &&& self.following.wf()
    }

    /// Profiles by peer id.
    pub closed spec fn profile_map(&self) -> Map<Seq<char>, ProfileView> {
        self.profiles.as_map()
    }

    /// Profiles in the order in which their peers first saved one.
    pub closed spec fn profile_list(&self) -> Seq<ProfileView> {
        self.profiles.values()
    }

    /// Where the profile of `peer` stands in `profile_list`.
    pub closed spec fn profile_position(&self, peer: Seq<char>) -> int {
        key_index(self.profiles.entries@, peer)
    }

    /// Where the post `cid` stands in `post_list`.
    pub closed spec fn post_position(&self, cid: Seq<char>) -> int {
        key_index(self.posts.entries@, cid)
    }

    /// Posts by content id.
    pub closed spec fn post_map(&self) -> Map<Seq<char>, PostView> {
        self.posts.as_map()
    }

    /// Posts in the order in which their content ids were first saved.
    pub closed spec fn post_list(&self) -> Seq<PostView> {
        self.posts.values()
    }

    /// The followers recorded for `peer`, in the order they followed (repeats kept).
    pub closed spec fn followers_of(&self, peer: Seq<char>) -> Seq<Seq<char>> {
        list_or_empty(self.followers.as_map(), peer)
    }

    /// The peers that `peer` follows, in the order followed (repeats kept).
    pub closed spec fn following_of(&self, peer: Seq<char>) -> Seq<Seq<char>> {
        list_or_empty(self.following.as_map(), peer)
    }

    /// An empty store.
    pub fn new() -> (s: InMemoryStore)
        ensures
            s.wf(),
            s.profile_map() == Map::<Seq<char>, ProfileView>::empty(),
            s.profile_list() == Seq::<ProfileView>::empty(),
            s.post_map() == Map::<Seq<char>, PostView>::empty(),
            s.post_list() == Seq::<PostView>::empty(),
            forall|p: Seq<char>| s.followers_of(p) == Seq::<Seq<char>>::empty(),
            forall|p: Seq<char>| s.following_of(p) == Seq::<Seq<char>>::empty(),
    {
        let s = InMemoryStore {
            profiles: KeyedVec::new(),
            posts: KeyedVec::new(),
            followers: KeyedVec::new(),
            following: KeyedVec::new(),
        };
        assert(s.profile_list() =~= Seq::<ProfileView>::empty());
        assert(s.post_list() =~= Seq::<PostView>::empty());
        s
    }

    /// Stores `profile` as the profile of `peer_id`.
    pub fn save_profile(&mut self, peer_id: &str, profile: Profile)
        requires
            old(self).wf(),
        ensures
            final(self).wf(),
            final(self).profile_map() == old(self).profile_map().insert(peer_id@, profile@),
            final(self).post_map() == old(self).post_map(),
            final(self).post_list() == old(self).post_list(),
            forall|p: Seq<char>| final(self).followers_of(p) == old(self).followers_of(p),
            forall|p: Seq<char>| final(self).following_of(p) == old(self).following_of(p),
            old(self).profile_map().contains_key(peer_id@) ==> final(self).profile_list()
                == old(self).profile_list().update(
                old(self).profile_position(peer_id@),
                profile@,
            ),
            !old(self).profile_map().contains_key(peer_id@) ==> final(self).profile_list()
                == old(self).profile_list().push(profile@),
    {
        self.profiles.insert(peer_id, profile);
    }

    /// The profile of `peer_id`, if one was saved.
    pub fn get_profile(&self, peer_id: &str) -> (r: Option<Profile>)
        requires
            self.wf(),
        ensures
            match r {
                Some(p) => self.profile_map().contains_key(peer_id@) && p@ == self.profile_map()[peer_id@],
                None => !self.profile_map().contains_key(peer_id@),
            },
    {
        self.profiles.get(peer_id)
    }

    /// All profiles.
    pub fn get_profiles(&self) -> (r: Vec<Profile>)
        requires
            self.wf(),
        ensures
            profile_views(r@) == self.profile_list(),
    {
        let r = self.profiles.values_vec();
        assert(profile_views(r@) =~= r@.map_values(|v: Profile| v@));
        r
    }

    /// Stores `post` under the content id `cid`.
    pub fn save_post(&mut self, cid: &str, post: Post)
        requires
            old(self).wf(),
        ensures
            final(self).wf(),
            final(self).post_map() == old(self).post_map().insert(cid@, post@),
            final(self).profile_map() == old(self).profile_map(),
            final(self).profile_list() == old(self).profile_list(),
            forall|p: Seq<char>| final(self).followers_of(p) == old(self).followers_of(p),
            forall|p: Seq<char>| final(self).following_of(p) == old(self).following_of(p),
            old(self).post_map().contains_key(cid@) ==> final(self).post_list()
                == old(self).post_list().update(old(self).post_position(cid@), post@),
            !old(self).post_map().contains_key(cid@) ==> final(self).post_list()
                == old(self).post_list().push(post@),
    {
        self.posts.insert(cid, post);
    }

    /// The post with content id `cid`, if any.
    pub fn get_post(&self, cid: &str) -> (r: Option<Post>)
        requires
            self.wf(),
        ensures
            match r {
                Some(p) => self.post_map().contains_key(cid@) && p@ == self.post_map()[cid@],
                None => !self.post_map().contains_key(cid@),
            },
    {
        self.posts.get(cid)
    }

    /// All posts, newest first.
    pub fn get_posts(&self) -> (r: Vec<Post>)
        requires
            self.wf(),
        ensures
            post_views(r@) == newest_first(self.post_list()),
    {
        let all = self.posts.values_vec();
        assert(post_views(all@) =~= all@.map_values(|v: Post| v@));
        sort_newest_first(all)
    }

    /// Deletes the post with content id `cid`; says whether there was one.
    pub fn delete_post(&mut self, cid: &str) -> (deleted: bool)
        requires
            old(self).wf(),
        ensures
            final(self).wf(),
            deleted == old(self).post_map().contains_key(cid@),
            final(self).post_map() == old(self).post_map().remove(cid@),
            deleted ==> final(self).post_list() == old(self).post_list().remove(
                old(self).post_position(cid@),
            ),
            !deleted ==> final(self).post_list() == old(self).post_list(),
            final(self).profile_map() == old(self).profile_map(),
            final(self).profile_list() == old(self).profile_list(),
            forall|p: Seq<char>| final(self).followers_of(p) == old(self).followers_of(p),
            forall|p: Seq<char>| final(self).following_of(p) == old(self).following_of(p),
    {
        self.posts.remove(cid)
    }

    /// Records that `follower` follows `followee`: each is appended to the other's list.
    pub fn follow(&mut self, follower: &str, followee: &str)
        requires
            old(self).wf(),
        ensures
            final(self).wf(),
            final(self).followers_of(followee@) == old(self).followers_of(followee@).push(follower@),
            forall|p: Seq<char>| p != followee@ ==> final(self).followers_of(p) == old(self).followers_of(p),
            final(self).following_of(follower@) == old(self).following_of(follower@).push(followee@),
            forall|p: Seq<char>| p != follower@ ==> final(self).following_of(p) == old(self).following_of(p),
            final(self).profile_map() == old(self).profile_map(),
            final(self).profile_list() == old(self).profile_list(),
            final(self).post_map() == old(self).post_map(),
            final(self).post_list() == old(self).post_list(),
    {
        let mut list = match self.followers.get(followee) {
            Some(l) => l,
            None => Vec::new(),
        };
        let ghost before = list@;
        list.push(follower.to_owned());
        assert(str_views(list@) =~= str_views(before).push(follower@));
        self.followers.insert(followee, list);
        let mut list2 = match self.following.get(follower) {
            Some(l) => l,
            None => Vec::new(),
        };
        let ghost before2 = list2@;
        list2.push(followee.to_owned());
        assert(str_views(list2@) =~= str_views(before2).push(followee@));
        self.following.insert(follower, list2);
    }

    /// Removes every record of `follower` following `followee`.
    pub fn unfollow(&mut self, follower: &str, followee: &str)
        requires
            old(self).wf(),
        ensures
            final(self).wf(),
            final(self).followers_of(followee@) == without(old(self).followers_of(followee@), follower@),
            forall|p: Seq<char>| p != followee@ ==> final(self).followers_of(p) == old(self).followers_of(p),
            final(self).following_of(follower@) == without(old(self).following_of(follower@), followee@),
            forall|p: Seq<char>| p != follower@ ==> final(self).following_of(p) == old(self).following_of(p),
            final(self).profile_map() == old(self).profile_map(),
            final(self).profile_list() == old(self).profile_list(),
            final(self).post_map() == old(self).post_map(),
            final(self).post_list() == old(self).post_list(),
    {
        match self.followers.get(followee) {
            Some(l) => {
                let kept = retain_other(&l, follower);
                self.followers.insert(followee, kept);
            },
            None => {
                assert(without(Seq::<Seq<char>>::empty(), follower@) =~= Seq::<Seq<char>>::empty());
            },
        }
        match self.following.get(follower) {
            Some(l) => {
                let kept = retain_other(&l, followee);
                self.following.insert(follower, kept);
            },
            None => {
                assert(without(Seq::<Seq<char>>::empty(), followee@) =~= Seq::<Seq<char>>::empty());
            },
        }
    }

    /// The followers recorded for `peer_id`.
    pub fn get_followers(&self, peer_id: &str) -> (r: Vec<String>)
        requires
            self.wf(),
        ensures
            str_views(r@) == self.followers_of(peer_id@),
    {
        match self.followers.get(peer_id) {
            Some(l) => l,
            None => {
                let v: Vec<String> = Vec::new();
                assert(str_views(v@) =~= Seq::<Seq<char>>::empty());
                v
            },
        }
    }

    /// The peers that `peer_id` follows.
    pub fn get_following(&self, peer_id: &str) -> (r: Vec<String>)
        requires
            self.wf(),
        ensures
            str_views(r@) == self.following_of(peer_id@),
    {
        match self.following.get(peer_id) {
            Some(l) => l,
            None => {
                let v: Vec<String> = Vec::new();
                assert(str_views(v@) =~= Seq::<Seq<char>>::empty());
                v
            },
        }
    }
}

/// An error reported to API clients.
#[derive(Debug)]
pub struct GatewayError {
    pub message: String,
}

/// What a successful registration or login returns.
#[derive(Debug)]
pub struct AuthPayload {
    pub token: String,
    pub profile: Profile,
}

/// A post of the feed with its author's profile.
#[derive(Debug)]
pub struct FeedItem {
    pub post: Post,
    pub author: Profile,
}

/// Events pushed to subscribers.
#[derive(Debug)]
pub enum GatewayEvent {
    NewPost(Post),
}

/// A feed item as plain values.
pub struct FeedItemView {
    pub post: PostView,
    pub author: ProfileView,
}

/// The views of a sequence of feed items.
pub open spec fn feed_views(s: Seq<FeedItem>) -> Seq<FeedItemView> {
    s.map_values(|f: FeedItem| FeedItemView { post: f.post@, author: f.author@ })
}

/// At most `limit` elements of `s`, starting at `offset`.
pub open spec fn window<T>(s: Seq<T>, offset: nat, limit: nat) -> Seq<T> {
    let start = if offset < s.len() { offset } else { s.len() };
    let end = if start + limit < s.len() { start + limit } else { s.len() };
    s.subrange(start as int, end as int)
}

/// The profile shown as the author `author`: the saved one, or a placeholder named by the
/// peer id.
pub open spec fn author_of(profiles: Map<Seq<char>, ProfileView>, author: Seq<char>) -> ProfileView {
    if profiles.contains_key(author) {
        profiles[author]
    } else {
        placeholder_profile(author, author)
    }
}

/// Each post with the profile shown for its author.
pub open spec fn feed_items(posts: Seq<PostView>, profiles: Map<Seq<char>, ProfileView>) -> Seq<FeedItemView> {
    posts.map_values(|p: PostView| FeedItemView { post: p, author: author_of(profiles, p.author) })
}

/// The lower-cased query `q` occurs in the profile's lower-cased name or peer id.
pub open spec fn profile_matches(p: ProfileView, q: Seq<char>) -> bool {
    has_substring(lowercase(p.display_name), q) || has_substring(lowercase(p.peer_id), q)
}

/// The profiles of `s` that match `q`, in order.
pub open spec fn matching_profiles(s: Seq<ProfileView>, q: Seq<char>) -> Seq<ProfileView>
    decreases s.len(),
{
    if s.len() == 0 {
        s
    } else if profile_matches(s.last(), q) {
        matching_profiles(s.drop_last(), q).push(s.last())
    } else {
        matching_profiles(s.drop_last(), q)
    }
}

/// The lower-cased query `q` occurs in the post's lower-cased content.
pub open spec fn post_matches(p: PostView, q: Seq<char>) -> bool {
    has_substring(lowercase(p.content), q)
}

/// The posts of `s` that match `q`, in order.
pub open spec fn matching_posts(s: Seq<PostView>, q: Seq<char>) -> Seq<PostView>
    decreases s.len(),
{
    if s.len() == 0 {
        s
    } else if post_matches(s.last(), q) {
        matching_posts(s.drop_last(), q).push(s.last())
    } else {
        matching_posts(s.drop_last(), q)
    }
}

/// The profiles of `s` whose lower-cased name `names[i]` or lower-cased peer id `ids[i]`
/// contains `q`, in order.
pub open spec fn matching_profiles_lowered(
    s: Seq<ProfileView>,
    names: Seq<Seq<char>>,
    ids: Seq<Seq<char>>,
    q: Seq<char>,
) -> Seq<ProfileView>
    decreases s.len(),
{
    if s.len() == 0 {
        s
    } else if has_substring(names[s.len() - 1], q) || has_substring(ids[s.len() - 1], q) {
        matching_profiles_lowered(s.drop_last(), names, ids, q).push(s.last())
    } else {
        matching_profiles_lowered(s.drop_last(), names, ids, q)
    }
}

/// The posts of `s` whose lower-cased content `contents[i]` contains `q`, in order.
pub open spec fn matching_posts_lowered(s: Seq<PostView>, contents: Seq<Seq<char>>, q: Seq<char>) -> Seq<PostView>
    decreases s.len(),
{
    if s.len() == 0 {
        s
    } else if has_substring(contents[s.len() - 1], q) {
        matching_posts_lowered(s.drop_last(), contents, q).push(s.last())
    } else {
        matching_posts_lowered(s.drop_last(), contents, q)
    }
}

proof fn lemma_profiles_lowered(s: Seq<ProfileView>, names: Seq<Seq<char>>, ids: Seq<Seq<char>>, q: Seq<char>)
    requires
        forall|i: int| 0 <= i < s.len() ==> names[i] == lowercase((#[trigger] s[i]).display_name) && ids[i]
            == lowercase(s[i].peer_id),
    ensures
        matching_profiles_lowered(s, names, ids, q) == matching_profiles(s, q),
    decreases s.len(),
{
    if s.len() > 0 {
        let t = s.drop_last();
        assert forall|i: int| 0 <= i < t.len() implies names[i] == lowercase((#[trigger] t[i]).display_name)
            && ids[i] == lowercase(t[i].peer_id) by {
            assert(t[i] == s[i]);
        }
        lemma_profiles_lowered(t, names, ids, q);
        assert(s[s.len() - 1] == s.last());
    }
}

proof fn lemma_posts_lowered(s: Seq<PostView>, contents: Seq<Seq<char>>, q: Seq<char>)
    requires
        forall|i: int| 0 <= i < s.len() ==> contents[i] == lowercase((#[trigger] s[i]).content),
    ensures
        matching_posts_lowered(s, contents, q) == matching_posts(s, q),
    decreases s.len(),
{
    if s.len() > 0 {
        let t = s.drop_last();
        assert forall|i: int| 0 <= i < t.len() implies contents[i] == lowercase((#[trigger] t[i]).content) by {
            assert(t[i] == s[i]);
        }
        lemma_posts_lowered(t, contents, q);
        assert(s[s.len() - 1] == s.last());
    }
}

/// The profiles of `profiles` whose lower-cased name `names[i]` or lower-cased peer id
/// `ids[i]` contains the lower-cased query `q`, in order.
pub fn select_profiles_lowered(profiles: &Vec<Profile>, names: &Vec<String>, ids: &Vec<String>, q: &str) -> (r: Vec<Profile>)
    requires
        names@.len() == profiles@.len(),
        ids@.len() == profiles@.len(),
    ensures
        profile_views(r@) == matching_profiles_lowered(profile_views(profiles@), str_views(names@), str_views(ids@), q@),
{
    let qc = chars_of(q);
    let ghost all = profile_views(profiles@);
    let mut r: Vec<Profile> = Vec::new();
    assert(all.take(0) =~= Seq::<ProfileView>::empty());
    for i in 0..profiles.len()
        invariant
            names@.len() == profiles@.len(),
            ids@.len() == profiles@.len(),
            all == profile_views(profiles@),
            qc@ == q@,
            profile_views(r@) == matching_profiles_lowered(all.take(i as int), str_views(names@), str_views(ids@), q@),
    {
        assert(all.take(i + 1).drop_last() =~= all.take(i as int));
        assert(all.take(i + 1).last() == all[i as int]);
        let name = chars_of(names[i].as_str());
        let id = chars_of(ids[i].as_str());
        assert(str_views(names@)[i as int] == names@[i as int]@);
        assert(str_views(ids@)[i as int] == ids@[i as int]@);
        if contains_chars(&name, &qc) || contains_chars(&id, &qc) {
            let ghost before = r@;
            r.push(profiles[i].snapshot());
            assert(profile_views(r@) =~= profile_views(before).push(all[i as int]));
        }
    }
    assert(all.take(profiles@.len() as int) =~= all);
    r
}

/// The posts of `posts` whose lower-cased content `contents[i]` contains the lower-cased
/// query `q`, in order.
pub fn select_posts_lowered(posts: &Vec<Post>, contents: &Vec<String>, q: &str) -> (r: Vec<Post>)
    requires
        contents@.len() == posts@.len(),
    ensures
        post_views(r@) == matching_posts_lowered(post_views(posts@), str_views(contents@), q@),
{
    let qc = chars_of(q);
    let ghost all = post_views(posts@);
    let mut r: Vec<Post> = Vec::new();
    assert(all.take(0) =~= Seq::<PostView>::empty());
    for i in 0..posts.len()
        invariant
            contents@.len() == posts@.len(),
            all == post_views(posts@),
            qc@ == q@,
            post_views(r@) == matching_posts_lowered(all.take(i as int), str_views(contents@), q@),
    {
        assert(all.take(i + 1).drop_last() =~= all.take(i as int));
        assert(all.take(i + 1).last() == all[i as int]);
        let content = chars_of(contents[i].as_str());
        assert(str_views(contents@)[i as int] == contents@[i as int]@);
        if contains_chars(&content, &qc) {
            let ghost before = r@;
            r.push(posts[i].snapshot());
            assert(post_views(r@) =~= post_views(before).push(all[i as int]));
        }
    }
    assert(all.take(posts@.len() as int) =~= all);
    r
}

/// The saved profiles of the peers `ids`, in order, skipping peers without one.
pub open spec fn known_profiles(ids: Seq<Seq<char>>, profiles: Map<Seq<char>, ProfileView>) -> Seq<ProfileView>
    decreases ids.len(),
{
    if ids.len() == 0 {
        Seq::empty()
    } else if profiles.contains_key(ids.last()) {
        known_profiles(ids.drop_last(), profiles).push(profiles[ids.last()])
    } else {
        known_profiles(ids.drop_last(), profiles)
    }
}

/// The profile after an update: each given field replaces the stored one.
pub open spec fn updated_profile(
    p: ProfileView,
    display_name: Option<Seq<char>>,
    bio: Option<Seq<char>>,
    avatar_cid: Option<Seq<char>>,
) -> ProfileView {
    ProfileView {
        display_name: match display_name {
            Some(n) => n,
            None => p.display_name,
        },
        bio: match bio {
            Some(b) => Some(b),
            None => p.bio,
        },
        avatar_cid: match avatar_cid {
            Some(c) => Some(c),
            None => p.avatar_cid,
        },
        ..p
    }
}

/// The gateway's state: accounts and social data.
pub struct AppState {
    pub auth: AuthManager,
    pub store: InMemoryStore,
}

impl AppState {
    /// Both parts are well formed.
    pub open spec fn wf(&self) -> bool {
        self.auth.wf() && self.store.wf()
    }

    /// A gateway with the given accounts and an empty store.
    pub fn new(auth: AuthManager) -> (s: AppState)
        requires
            auth.wf(),
        ensures
            s.wf(),
            s.auth.accounts() == auth.accounts(),
            s.auth.secret() == auth.secret(),
            s.store.profile_map() == Map::<Seq<char>, ProfileView>::empty(),
            s.store.post_list() == Seq::<PostView>::empty(),
    {
        AppState { auth, store: InMemoryStore::new() }
    }

    /// The profile of `peer_id`, if any.
    pub fn get_profile(&self, peer_id: &str) -> (r: Option<Profile>)
        requires
            self.wf(),
        ensures
            match r {
                Some(p) => self.store.profile_map().contains_key(peer_id@) && p@ == self.store.profile_map()[peer_id@],
                None => !self.store.profile_map().contains_key(peer_id@),
            },
    {
        self.store.get_profile(peer_id)
    }

    /// The post `cid`, if any.
    pub fn get_post(&self, cid: &str) -> (r: Option<Post>)
        requires
            self.wf(),
        ensures
            match r {
                Some(p) => self.store.post_map().contains_key(cid@) && p@ == self.store.post_map()[cid@],
                None => !self.store.post_map().contains_key(cid@),
            },
    {
        self.store.get_post(cid)
    }

    /// The feed: at most `limit` posts, newest first, skipping the first `offset`, each with
    /// its author's profile.
    pub fn get_feed(&self, limit: usize, offset: usize) -> (items: Vec<FeedItem>)
        requires
            self.wf(),
        ensures
            feed_views(items@) == feed_items(
                window(newest_first(self.store.post_list()), offset as nat, limit as nat),
                self.store.profile_map(),
            ),
    {
        let posts = self.store.get_posts();
        let n = posts.len();
        let start: usize = if offset < n { offset } else { n };
        let end: usize = if limit < n - start { start + limit } else { n };
        let ghost chosen = post_views(posts@).subrange(start as int, end as int);
        assert(chosen == window(newest_first(self.store.post_list()), offset as nat, limit as nat));
        let ghost target = feed_items(chosen, self.store.profile_map());
        let mut items: Vec<FeedItem> = Vec::new();
        let mut i: usize = start;
        while i < end
            invariant
                start <= i <= end <= n == posts@.len(),
                chosen == post_views(posts@).subrange(start as int, end as int),
                target == feed_items(chosen, self.store.profile_map()),
                self.wf(),
                feed_views(items@) == target.take(i - start),
            decreases end - i,
        {
            let post = posts[i].snapshot();
            let author = match self.store.get_profile(post.author.as_str()) {
                Some(p) => p,
                None => Profile::fresh(post.author.as_str(), post.author.as_str()),
            };
            assert(post@ == chosen[i - start]);
            assert(author@ == author_of(self.store.profile_map(), post@.author));
            assert(target[i - start] == FeedItemView { post: post@, author: author@ });
            let ghost before = items@;
            let item = FeedItem { post, author };
            items.push(item);
            assert(feed_views(items@) =~= feed_views(before).push(target[i - start]));
            assert(target.take(i + 1 - start) =~= target.take(i - start).push(target[i - start]));
            i = i + 1;
        }
        assert(target.take(end - start) =~= target);
        items
    }

    /// The profiles whose name or peer id contains `query`, ignoring case.
    pub fn search_profiles(&self, query: &str) -> (r: Vec<Profile>)
        requires
            self.wf(),
        ensures
            profile_views(r@) == matching_profiles(self.store.profile_list(), lowercase(query@)),
    {
        let profiles = self.store.get_profiles();
        let q = to_lowercase(query);
        let mut names: Vec<String> = Vec::new();
        let mut ids: Vec<String> = Vec::new();
        for i in 0..profiles.len()
            invariant
                names@.len() == i,
                ids@.len() == i,
                forall|j: int| 0 <= j < i ==> (#[trigger] names@[j])@ == lowercase(profiles@[j].display_name@),
                forall|j: int| 0 <= j < i ==> (#[trigger] ids@[j])@ == lowercase(profiles@[j].peer_id@),
        {
            let name = to_lowercase(profiles[i].display_name.as_str());
            let id = to_lowercase(profiles[i].peer_id.as_str());
            let ghost old_names = names@;
            let ghost old_ids = ids@;
            names.push(name);
            ids.push(id);
            assert(forall|j: int| 0 <= j < i ==> names@[j] == old_names[j]);
            assert(forall|j: int| 0 <= j < i ==> ids@[j] == old_ids[j]);
            assert(names@[i as int]@ == lowercase(profiles@[i as int].display_name@));
            assert(ids@[i as int]@ == lowercase(profiles@[i as int].peer_id@));
        }
        let r = select_profiles_lowered(&profiles, &names, &ids, q.as_str());
        proof {
            let all = profile_views(profiles@);
            assert forall|i: int| 0 <= i < all.len() implies str_views(names@)[i] == lowercase((#[trigger] all[i]).display_name)
                && str_views(ids@)[i] == lowercase(all[i].peer_id) by {
                assert(names@[i]@ == lowercase(profiles@[i].display_name@));
                assert(ids@[i]@ == lowercase(profiles@[i].peer_id@));
            }
            lemma_profiles_lowered(all, str_views(names@), str_views(ids@), q@);
        }
        r
    }

    /// The posts whose content contains `query`, ignoring case, newest first.
    pub fn search_posts(&self, query: &str) -> (r: Vec<Post>)
        requires
            self.wf(),
        ensures
            post_views(r@) == matching_posts(newest_first(self.store.post_list()), lowercase(query@)),
    {
        let posts = self.store.get_posts();
        let q = to_lowercase(query);
        let mut contents: Vec<String> = Vec::new();
        for i in 0..posts.len()
            invariant
                contents@.len() == i,
                forall|j: int| 0 <= j < i ==> (#[trigger] contents@[j])@ == lowercase(posts@[j].content@),
        {
            let content = to_lowercase(posts[i].content.as_str());
            contents.push(content);
            assert(contents@[i as int]@ == lowercase(posts@[i as int].content@));
        }
        let r = select_posts_lowered(&posts, &contents, q.as_str());
        proof {
            let all = post_views(posts@);
            assert forall|i: int| 0 <= i < all.len() implies str_views(contents@)[i] == lowercase((#[trigger] all[i]).content) by {
                assert(contents@[i]@ == lowercase(posts@[i].content@));
            }
            lemma_posts_lowered(all, str_views(contents@), q@);
        }
        r
    }

    /// The saved profiles of the peers in `ids`, in order.
    fn profiles_of(&self, ids: &Vec<String>) -> (r: Vec<Profile>)
        requires
            self.wf(),
        ensures
            profile_views(r@) == known_profiles(str_views(ids@), self.store.profile_map()),
    {
        let ghost all = str_views(ids@);
        let mut r: Vec<Profile> = Vec::new();
        assert(all.take(0) =~= Seq::<Seq<char>>::empty());
        for i in 0..ids.len()
            invariant
                all == str_views(ids@),
                self.wf(),
                profile_views(r@) == known_profiles(all.take(i as int), self.store.profile_map()),
        {
            assert(all.take(i + 1).drop_last() =~= all.take(i as int));
            match self.store.get_profile(ids[i].as_str()) {
                Some(p) => {
                    let ghost before = r@;
                    r.push(p);
                    assert(profile_views(r@) =~= profile_views(before).push(
                        self.store.profile_map()[all[i as int]],
                    ));
                },
                None => {},
            }
        }
        assert(all.take(ids@.len() as int) =~= all);
        r
    }

    /// The profiles of the followers of `peer_id` that have one; `_limit` is not applied.
    pub fn get_followers(&self, peer_id: &str, _limit: usize) -> (r: Vec<Profile>)
        requires
            self.wf(),
        ensures
            profile_views(r@) == known_profiles(self.store.followers_of(peer_id@), self.store.profile_map()),
    {
        let ids = self.store.get_followers(peer_id);
        self.profiles_of(&ids)
    }

    /// The profiles of the peers that `peer_id` follows that have one; `_limit` is not applied.
    pub fn get_following(&self, peer_id: &str, _limit: usize) -> (r: Vec<Profile>)
        requires
            self.wf(),
        ensures
            profile_views(r@) == known_profiles(self.store.following_of(peer_id@), self.store.profile_map()),
    {
        let ids = self.store.get_following(peer_id);
        self.profiles_of(&ids)
    }

    /// Registers an account whose key pair has public key `public_key` and whose peer id is
    /// `peer_id`, and saves a fresh profile for it.
    pub fn register_user(
        &mut self,
        email: &str,
        password: &str,
        display_name: &str,
        public_key: Vec<u8>,
        peer_id: &str,
    ) -> (r: Result<AuthPayload, GatewayError>)
        requires
            old(self).wf(),
        ensures
            final(self).wf(),
            final(self).auth.secret() == old(self).auth.secret(),
            old(self).auth.accounts().contains_key(email@) ==> (r matches Err(e) && e.message@ == "email already registered"@),
            r is Err ==> final(self).auth.accounts() == old(self).auth.accounts() && final(self).store.profile_map()
                == old(self).store.profile_map(),
            r matches Ok(payload) ==> {
                &&& old(self).auth.accounts().contains_key(email@) == false
                &&& final(self).auth.accounts().contains_key(email@)
                &&& final(self).auth.accounts().dom() == old(self).auth.accounts().dom().insert(email@)
                &&& final(self).auth.accounts()[email@].email == email@
                &&& final(self).auth.accounts()[email@].display_name == display_name@
                &&& final(self).auth.accounts()[email@].public_key == public_key@
                &&& is_uuid_v4_text(final(self).auth.accounts()[email@].id)
                &&& final(self).auth.accounts()[email@].password_hash == password_hash_text(
                    password@,
                    final(self).auth.accounts()[email@].password_salt,
                )
                &&& final(self).auth.accounts()[email@].created_at.valid()
                &&& payload.token@ == token_for(
                    old(self).auth.secret(),
                    final(self).auth.accounts()[email@].id,
                    email@,
                    final(self).auth.accounts()[email@].created_at,
                )
                &&& payload.profile@ == placeholder_profile(peer_id@, display_name@)
                &&& final(self).store.profile_map() == old(self).store.profile_map().insert(peer_id@, payload.profile@)
            },
            !old(self).auth.accounts().contains_key(email@) && vstd::utf8::encode_utf8(password@).len()
                <= crate::auth::ARGON2_MAX_PWD_LEN ==> r is Ok,
            final(self).store.post_map() == old(self).store.post_map(),
            final(self).store.post_list() == old(self).store.post_list(),
    {
        let token = match self.auth.register(email, password, display_name, public_key) {
            Ok(t) => t,
            Err(message) => return Err(GatewayError { message }),
        };
        let profile = Profile::fresh(peer_id, display_name);
        self.store.save_profile(peer_id, profile.snapshot());
        Ok(AuthPayload { token, profile })
    }

    /// The answer to a successful login of `user`, whose peer id is `peer_id`: its saved
    /// profile, or a placeholder with the account's display name.
    pub fn login_payload(&self, token: String, user: &StoredUser, peer_id: &str) -> (payload: AuthPayload)
        requires
            self.wf(),
        ensures
            payload.token == token,
            payload.profile@ == (if self.store.profile_map().contains_key(peer_id@) {
                self.store.profile_map()[peer_id@]
            } else {
                placeholder_profile(peer_id@, user.display_name@)
            }),
    {
        let profile = match self.store.get_profile(peer_id) {
            Some(p) => p,
            None => Profile::fresh(peer_id, user.display_name.as_str()),
        };
        AuthPayload { token, profile }
    }

    /// Publishes a post by `user_id` with content id `cid` at `timestamp`.
    pub fn create_post_with(
        &mut self,
        user_id: &str,
        content: &str,
        media: Vec<String>,
        parent: Option<String>,
        cid: String,
        timestamp: Timestamp,
    ) -> (post: Post)
        requires
            old(self).wf(),
        ensures
            final(self).wf(),
            post@ == (PostView {
                cid: cid@,
                author: user_id@,
                content: content@,
                media: str_views(media@),
                parent: opt_view(parent),
                reply_count: 0,
                like_count: 0,
                timestamp,
                signature: Seq::empty(),
            }),
            final(self).store.post_map() == old(self).store.post_map().insert(cid@, post@),
            old(self).store.post_map().contains_key(cid@) ==> final(self).store.post_list()
                == old(self).store.post_list().update(old(self).store.post_position(cid@), post@),
            !old(self).store.post_map().contains_key(cid@) ==> final(self).store.post_list()
                == old(self).store.post_list().push(post@),
            final(self).store.profile_map() == old(self).store.profile_map(),
            final(self).auth == old(self).auth,
    {
        let post = Post {
            cid,
            author: user_id.to_owned(),
            content: content.to_owned(),
            media,
            parent,
            reply_count: 0,
            like_count: 0,
            timestamp,
            signature: Vec::new(),
        };
        let key = post.cid.clone();
        self.store.save_post(key.as_str(), post.snapshot());
        post
    }

    /// Publishes a post by `user_id` now, under a fresh content id `post-<uuid>`.
    pub fn create_post(&mut self, user_id: &str, content: &str, media: Vec<String>, parent: Option<String>) -> (post: Post)
        requires
            old(self).wf(),
        ensures
            final(self).wf(),
            post@.author == user_id@,
            post@.content == content@,
            post@.media == str_views(media@),
            post@.parent == opt_view(parent),
            post@.reply_count == 0 && post@.like_count == 0,
            post@.signature == Seq::<u8>::empty(),
            post@.timestamp.valid(),
            exists|u: Seq<char>| is_uuid_v4_text(u) && post@.cid == "post-"@ + u,
            final(self).store.post_map() == old(self).store.post_map().insert(post@.cid, post@),
            old(self).store.post_map().contains_key(post@.cid) ==> final(self).store.post_list()
                == old(self).store.post_list().update(old(self).store.post_position(post@.cid), post@),
            !old(self).store.post_map().contains_key(post@.cid) ==> final(self).store.post_list()
                == old(self).store.post_list().push(post@),
            final(self).store.profile_map() == old(self).store.profile_map(),
            final(self).auth == old(self).auth,
    {
        let mut cid = "post-".to_owned();
        let id = new_uuid();
        cid.append(id.as_str());
        assert(is_uuid_v4_text(id@) && cid@ == "post-"@ + id@);
        self.create_post_with(user_id, content, media, parent, cid, now())
    }

    /// Deletes the post `cid`; says whether there was one.
    pub fn delete_post(&mut self, cid: &str) -> (deleted: bool)
        requires
            old(self).wf(),
        ensures
            final(self).wf(),
            deleted == old(self).store.post_map().contains_key(cid@),
            final(self).store.post_map() == old(self).store.post_map().remove(cid@),
            deleted ==> final(self).store.post_list() == old(self).store.post_list().remove(
                old(self).store.post_position(cid@),
            ),
            !deleted ==> final(self).store.post_list() == old(self).store.post_list(),
            final(self).store.profile_map() == old(self).store.profile_map(),
            final(self).auth == old(self).auth,
    {
        self.store.delete_post(cid)
    }

    /// `follower_id` follows `followee_id`; always answers `true`.
    pub fn follow_user(&mut self, follower_id: &str, followee_id: &str) -> (ok: bool)
        requires
            old(self).wf(),
        ensures
            ok,
            final(self).wf(),
            final(self).store.followers_of(followee_id@) == old(self).store.followers_of(followee_id@).push(follower_id@),
            final(self).store.following_of(follower_id@) == old(self).store.following_of(follower_id@).push(followee_id@),
            forall|p: Seq<char>| p != followee_id@ ==> final(self).store.followers_of(p) == old(self).store.followers_of(p),
            forall|p: Seq<char>| p != follower_id@ ==> final(self).store.following_of(p) == old(self).store.following_of(p),
            final(self).store.profile_map() == old(self).store.profile_map(),
            final(self).store.post_map() == old(self).store.post_map(),
            final(self).auth == old(self).auth,
    {
        self.store.follow(follower_id, followee_id);
        true
    }

    /// `follower_id` stops following `followee_id`; always answers `true`.
    pub fn unfollow_user(&mut self, follower_id: &str, followee_id: &str) -> (ok: bool)
        requires
            old(self).wf(),
        ensures
            ok,
            final(self).wf(),
            final(self).store.followers_of(followee_id@) == without(old(self).store.followers_of(followee_id@), follower_id@),
            final(self).store.following_of(follower_id@) == without(old(self).store.following_of(follower_id@), followee_id@),
            forall|p: Seq<char>| p != followee_id@ ==> final(self).store.followers_of(p) == old(self).store.followers_of(p),
            forall|p: Seq<char>| p != follower_id@ ==> final(self).store.following_of(p) == old(self).store.following_of(p),
            final(self).store.profile_map() == old(self).store.profile_map(),
            final(self).store.post_map() == old(self).store.post_map(),
            final(self).auth == old(self).auth,
    {
        self.store.unfollow(follower_id, followee_id);
        true
    }

    /// Replaces the given fields of the profile of `user_id`.
    pub fn update_profile(
        &mut self,
        user_id: &str,
        display_name: Option<String>,
        bio: Option<String>,
        avatar_cid: Option<String>,
    ) -> (r: Result<Profile, GatewayError>)
        requires
            old(self).wf(),
        ensures
            final(self).wf(),
            final(self).auth == old(self).auth,
            final(self).store.post_map() == old(self).store.post_map(),
            !old(self).store.profile_map().contains_key(user_id@) ==> (r matches Err(e) && e.message@
                == "profile not found"@ && final(self).store.profile_map() == old(self).store.profile_map()),
            old(self).store.profile_map().contains_key(user_id@) ==> (r matches Ok(p) && p@ == updated_profile(
                old(self).store.profile_map()[user_id@],
                opt_view(display_name),
                opt_view(bio),
                opt_view(avatar_cid),
            ) && final(self).store.profile_map() == old(self).store.profile_map().insert(user_id@, p@)),
    {
        let mut profile = match self.store.get_profile(user_id) {
            Some(p) => p,
            None => {
                proof { reveal_strlit("profile not found"); }
                return Err(GatewayError { message: "profile not found".to_owned() });
            },
        };
        if let Some(name) = display_name {
            profile.display_name = name;
        }
        if let Some(b) = bio {
            profile.bio = Some(b);
        }
        if let Some(c) = avatar_cid {
            profile.avatar_cid = Some(c);
        }
        self.store.save_profile(user_id, profile.snapshot());
        Ok(profile)
    }
}

/// Where the gateway listens and which peer it is.
#[derive(Debug, Clone)]
pub struct GatewayConfig {
    pub port: u16,
    pub peer_id: String,
}

/// Port the gateway listens on unless told otherwise.
pub const DEFAULT_GATEWAY_PORT: u16 = 8080;

impl Default for GatewayConfig {
    fn default() -> (c: GatewayConfig)
        ensures
            c.port == DEFAULT_GATEWAY_PORT,
            c.peer_id@ == Seq::<char>::empty(),
    {
        GatewayConfig { port: DEFAULT_GATEWAY_PORT, peer_id: String::new() }
    }
}

/// Root of the GraphQL queries.
#[derive(Debug)]
pub struct QueryRoot;

/// Posts per feed page unless the query says otherwise.
pub const DEFAULT_FEED_LIMIT: i32 = 20;
/// Profiles per follower list unless the query says otherwise.
pub const DEFAULT_LIST_LIMIT: i32 = 50;

impl QueryRoot {
    /// The page size and offset of a feed query: 20 and 0 when not given; a negative value
    /// is taken as a machine-size integer, as a cast does.
    pub fn feed_window(limit: Option<i32>, offset: Option<i32>) -> (r: (usize, usize))
        ensures
            r.0 == (match limit {
                Some(l) => l,
                None => DEFAULT_FEED_LIMIT,
            }) as usize,
            r.1 == (match offset {
                Some(o) => o,
                None => 0i32,
            }) as usize,
    {
        let l: i32 = match limit {
            Some(l) => l,
            None => DEFAULT_FEED_LIMIT,
        };
        let o: i32 = match offset {
            Some(o) => o,
            None => 0,
        };
        (l as usize, o as usize)
    }

    /// The size of a follower or following list query: 50 when not given.
    pub fn list_limit(limit: Option<i32>) -> (r: usize)
        ensures
            r == (match limit {
                Some(l) => l,
                None => DEFAULT_LIST_LIMIT,
            }) as usize,
    {
        let l: i32 = match limit {
            Some(l) => l,
            None => DEFAULT_LIST_LIMIT,
        };
        l as usize
    }
}

/// Root of the GraphQL mutations.
#[derive(Debug)]
pub struct MutationRoot;

impl MutationRoot {
    /// The user on whose behalf mutations act: there is no per-request identity yet, so it
    /// is always `user`.
    pub fn acting_user() -> (u: &'static str)
        ensures
            u@ == "user"@,
    {
        "user"
    }
}

/// Root of the GraphQL subscriptions.
#[derive(Debug)]
pub struct SubscriptionRoot;

impl SubscriptionRoot {
    /// The post that an event announces to `newPosts` subscribers.
    pub fn announced_post(event: GatewayEvent) -> (p: Post)
        ensures
            match event {
                GatewayEvent::NewPost(q) => p == q,
            },
    {
        match event {
            GatewayEvent::NewPost(q) => q,
        }
    }
}

/// No post of `s` is newer than a post before it.
pub open spec fn is_newest_first(s: Seq<PostView>) -> bool {
    forall|i: int, j: int| 0 <= i < j < s.len() ==> !(#[trigger] s[i]).timestamp.earlier((#[trigger] s[j]).timestamp)
}

/// Where `insert_by_time` puts `p` in `s`.
pub open spec fn insert_position(s: Seq<PostView>, p: PostView) -> int
    decreases s.len(),
{
    if s.len() == 0 {
        0
    } else if s.last().timestamp.earlier(p.timestamp) {
        insert_position(s.drop_last(), p)
    } else {
        s.len() as int
    }
}

proof fn lemma_insert_position(s: Seq<PostView>, p: PostView)
    ensures
        0 <= insert_position(s, p) <= s.len(),
        forall|j: int| insert_position(s, p) <= j < s.len() ==> #[trigger] s[j].timestamp.earlier(p.timestamp),
        insert_position(s, p) > 0 ==> !s[insert_position(s, p) - 1].timestamp.earlier(p.timestamp),
        insert_by_time(s, p) == s.insert(insert_position(s, p), p),
    decreases s.len(),
{
    if s.len() > 0 && s.last().timestamp.earlier(p.timestamp) {
        lemma_insert_position(s.drop_last(), p);
        let pos = insert_position(s, p);
        assert forall|j: int| pos <= j < s.len() implies #[trigger] s[j].timestamp.earlier(p.timestamp) by {
            if j < s.len() - 1 {
                assert(s[j] == s.drop_last()[j]);
            }
        }
    }
    lemma_insert_by_time_at(s, p, insert_position(s, p));
}

proof fn lemma_insert_keeps_order(s: Seq<PostView>, p: PostView)
    requires
        is_newest_first(s),
    ensures
        is_newest_first(insert_by_time(s, p)),
{
    lemma_insert_position(s, p);
    let pos = insert_position(s, p);
    let r = s.insert(pos, p);
    assert forall|i: int, j: int| 0 <= i < j < r.len() implies !(#[trigger] r[i]).timestamp.earlier(
        (#[trigger] r[j]).timestamp,
    ) by {
        if j < pos {
            assert(r[i] == s[i] && r[j] == s[j]);
            assert(!s[i].timestamp.earlier(s[j].timestamp));
        } else if j == pos {
            assert(r[i] == s[i]);
            assert(r[j] == p);
            if i < pos - 1 {
                assert(!s[i].timestamp.earlier(s[pos - 1].timestamp));
            }
            assert(!s[pos - 1].timestamp.earlier(p.timestamp));
        } else if i == pos {
            assert(r[i] == p);
            assert(r[j] == s[j - 1]);
            assert(s[j - 1].timestamp.earlier(p.timestamp));
        } else if i < pos {
            assert(r[i] == s[i] && r[j] == s[j - 1]);
            assert(!s[i].timestamp.earlier(s[j - 1].timestamp));
        } else {
            assert(r[i] == s[i - 1] && r[j] == s[j - 1]);
            assert(!s[i - 1].timestamp.earlier(s[j - 1].timestamp));
        }
    }
}

proof fn lemma_insert_multiset(s: Seq<PostView>, p: PostView)
    ensures
        insert_by_time(s, p).to_multiset() == s.to_multiset().insert(p),
{
    lemma_insert_position(s, p);
    vstd::seq_lib::to_multiset_insert(s, insert_position(s, p), p);
}

/// Law: the posts are served newest first, and exactly the stored posts are served, each
/// as often as it is stored.
pub proof fn law_newest_first_sorts(s: Seq<PostView>)
    ensures
        is_newest_first(newest_first(s)),
        newest_first(s).to_multiset() == s.to_multiset(),
    decreases s.len(),
{
    if s.len() == 0 {
    } else {
        law_newest_first_sorts(s.drop_last());
        lemma_insert_keeps_order(newest_first(s.drop_last()), s.last());
        lemma_insert_multiset(newest_first(s.drop_last()), s.last());
        vstd::seq_lib::to_multiset_build(s.drop_last(), s.last());
        assert(s.drop_last().push(s.last()) =~= s);
    }
}

/// Law: feed pages fit together: the page of `a` items at `offset` followed by the page of
/// `b` items right after it is the page of `a + b` items at `offset`.
pub proof fn law_feed_pages_concatenate(
    posts: Seq<PostView>,
    profiles: Map<Seq<char>, ProfileView>,
    offset: nat,
    a: nat,
    b: nat,
)
    ensures
        feed_items(window(posts, offset, a), profiles) + feed_items(window(posts, offset + a, b), profiles)
            == feed_items(window(posts, offset, a + b), profiles),
{
    let w1 = window(posts, offset, a);
    let w2 = window(posts, offset + a, b);
    let w = window(posts, offset, a + b);
    assert(w1 + w2 =~= w);
    assert(feed_items(w1, profiles) + feed_items(w2, profiles) =~= feed_items(w, profiles));
}

proof fn lemma_without_absent(s: Seq<Seq<char>>, x: Seq<char>)
    requires
        !s.contains(x),
    ensures
        without(s, x) == s,
    decreases s.len(),
{
    if s.len() > 0 {
        assert(!s.drop_last().contains(x)) by {
            if s.drop_last().contains(x) {
                let i = choose|i: int| 0 <= i < s.drop_last().len() && s.drop_last()[i] == x;
                assert(s[i] == x);
            }
        }
        lemma_without_absent(s.drop_last(), x);
        assert(s.last() != x) by {
            assert(s[s.len() - 1] == s.last());
        }
        assert(s.drop_last().push(s.last()) =~= s);
    }
}

/// Law: unfollowing undoes a follow: when `follower` was not in `followee`'s list, following
/// and then unfollowing leaves the list as it was.
pub proof fn law_unfollow_undoes_follow(list: Seq<Seq<char>>, follower: Seq<char>)
    requires
        !list.contains(follower),
    ensures
        without(list.push(follower), follower) == list,
{
    assert(list.push(follower).drop_last() =~= list);
    lemma_without_absent(list, follower);
}

/// Law: a search returns only stored profiles that match the query.
pub proof fn law_search_profiles_sound(s: Seq<ProfileView>, q: Seq<char>)
    ensures
        forall|i: int| 0 <= i < matching_profiles(s, q).len() ==> profile_matches(#[trigger] matching_profiles(s, q)[i], q)
            && s.contains(matching_profiles(s, q)[i]),
    decreases s.len(),
{
    if s.len() > 0 {
        law_search_profiles_sound(s.drop_last(), q);
        let r = matching_profiles(s, q);
        let r0 = matching_profiles(s.drop_last(), q);
        assert forall|i: int| 0 <= i < r.len() implies profile_matches(#[trigger] r[i], q) && s.contains(r[i]) by {
            if i < r0.len() {
                assert(r[i] == r0[i]);
                let k = choose|k: int| 0 <= k < s.drop_last().len() && s.drop_last()[k] == r0[i];
                assert(s[k] == r0[i]);
            } else {
                assert(r[i] == s.last());
                assert(s[s.len() - 1] == s.last());
            }
        }
    }
}

/// Law: after a post is saved under `cid`, reading `cid` gives it back, and every other
/// content id reads as before.
pub proof fn law_saved_post_reads_back(before: InMemoryStore, after: InMemoryStore, cid: Seq<char>, post: PostView, other: Seq<char>)
    requires
        after.post_map() == before.post_map().insert(cid, post),
    ensures
        after.post_map().contains_key(cid) && after.post_map()[cid] == post,
        other != cid ==> after.post_map().contains_key(other) == before.post_map().contains_key(other),
        other != cid && before.post_map().contains_key(other) ==> after.post_map()[other] == before.post_map()[other],
{
}

/// Law: deleting a newly saved post restores the posts as they were before it was saved.
pub proof fn law_delete_undoes_save(posts: Map<Seq<char>, PostView>, cid: Seq<char>, post: PostView)
    requires
        !posts.contains_key(cid),
    ensures
        posts.insert(cid, post).remove(cid) == posts,
{
    assert(posts.insert(cid, post).remove(cid) =~= posts);
}

} // verus!
