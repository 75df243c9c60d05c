//! Controller profiles and input bindings of XR hands.
use vstd::prelude::*;
use vstd::std_specs::iter::IteratorSpec;
use vstd::string::StringExecFns;

verus! {

/// One of the two hands of an XR user.
#[derive(Debug, Clone, Copy, PartialEq, Eq, Structural)]
pub enum XrHand {
    Left,
    Right,
}

/// Text `s` holds `needle` as a run of consecutive characters.
pub open spec fn contains_text(s: Seq<char>, needle: Seq<char>) -> bool {
    exists|i: int|
        0 <= i && i + needle.len() <= s.len() && #[trigger] s.subrange(i, i + needle.len())
            == needle
}

/// The characters of `s`, in order.
fn chars_of(s: &str) -> (v: Vec<char>)
    ensures
        v@ == s@,
{
    let mut v: Vec<char> = Vec::new();
    for c in it: s.chars()
        invariant
            it.seq() == s@,
            v@ == it.seq().subrange(0, it.index()),
    {
        v.push(c);
    }
    v
}

/// Whether `s` holds `needle` as a run of consecutive characters.
fn text_contains(s: &str, needle: &str) -> (b: bool)
    ensures
        b == contains_text(s@, needle@),
{
    let hay = chars_of(s);
    let pat = chars_of(needle);
    if pat.len() > hay.len() {
        proof {
            assert forall|i: int| 0 <= i && i + pat@.len() <= hay@.len() implies #[trigger] hay@.subrange(i, i + pat@.len()) != pat@ by {}
        }
        return false;
    }
    let last = hay.len() - pat.len();
    let mut i: usize = 0;
    loop
        invariant
            hay@ == s@,
            pat@ == needle@,
            last == hay@.len() - pat@.len(),
            i <= last,
            forall|k: int| 0 <= k < i ==> #[trigger] hay@.subrange(k, k + pat@.len()) != pat@,
        decreases last - i,
    {
        let mut j: usize = 0;
        let mut matching = true;
        while matching && j < pat.len()
            invariant
                hay@ == s@,
                pat@ == needle@,
                i <= last,
                last == hay@.len() - pat@.len(),
                j <= pat@.len(),
                forall|m: int| 0 <= m < j ==> hay@[i + m] == pat@[m],
                !matching ==> j < pat@.len() && hay@[i + j] != pat@[j as int],
            decreases pat@.len() - j + (if matching { 1int } else { 0int }),
        {
            assert(i + j < hay.len());
            if hay[i + j] == pat[j] {
                j += 1;
            } else {
                matching = false;
            }
        }
        if matching {
            proof {
                assert(hay@.subrange(i as int, i + pat@.len()) =~= pat@);
            }
            return true;
        }
        proof {
            assert(hay@.subrange(i as int, i + pat@.len())[j as int] != pat@[j as int]);
        }
        if i == last {
            return false;
        }
        i += 1;
    }
}

} // verus!

verus! {

/// The XR controller families whose input bindings are known.
#[derive(Debug, Clone, Copy, PartialEq, Eq, Structural)]
pub enum XrControllerProfile {
    Oculus,
    Vive,
    Valve,
    KhronosSimple,
}

/// The kind of value an XR input action yields.
#[derive(Debug, Clone, Copy, PartialEq, Eq, Structural)]
pub enum XrInputKind {
    /// A button: pressed or not.
    Digital,
    /// A single axis, such as a trigger.
    Analog,
    /// Two axes, such as a thumbstick.
    Analog2d,
    /// A tracked position and orientation.
    Pose,
}

impl XrHand {
    /// The hand's name as it appears in XR input paths.
    pub open spec fn spec_name(self) -> Seq<char> {
        match self {
            XrHand::Left => "left"@,
            XrHand::Right => "right"@,
        }
    }

    /// The hand's name as it appears in XR input paths: `left` or `right`.
    pub fn name(&self) -> (r: &'static str)
        ensures
            r@ == self.spec_name(),
    {
        match self {
            XrHand::Left => "left",
            XrHand::Right => "right",
        }
    }
}

/// The profile chosen for an XR system of the given name.
pub open spec fn profile_for_system_name(name: Seq<char>) -> XrControllerProfile {
    if contains_text(name, "Oculus"@) {
        XrControllerProfile::Oculus
    } else if contains_text(name, "Vive"@) {
        XrControllerProfile::Vive
    } else if contains_text(name, "Valve"@) {
        XrControllerProfile::Valve
    } else {
        XrControllerProfile::KhronosSimple
    }
}

impl XrControllerProfile {
    /// Picks the profile from the XR system's name: the first of `Oculus`, `Vive` and `Valve`
    /// that the name contains, else the Khronos simple controller.
    pub fn from_system_name(system_name: &str) -> (r: Self)
        ensures
            r == profile_for_system_name(system_name@),
    {
        if text_contains(system_name, "Oculus") {
            Self::Oculus
        } else if text_contains(system_name, "Vive") {
            Self::Vive
        } else if text_contains(system_name, "Valve") {
            Self::Valve
        } else {
            Self::KhronosSimple
        }
    }

    /// The OpenXR interaction profile path of this controller family.
    pub open spec fn spec_interaction_profile_path(self) -> Seq<char> {
        match self {
            XrControllerProfile::Oculus => "/interaction_profiles/oculus/touch_controller"@,
            XrControllerProfile::Vive => "/interaction_profiles/htc/vive_controller"@,
            XrControllerProfile::Valve => "/interaction_profiles/valve/index_controller"@,
            XrControllerProfile::KhronosSimple => "/interaction_profiles/khr/simple_controller"@,
        }
    }

    /// The OpenXR interaction profile path of this controller family.
    pub fn interaction_profile_path(&self) -> (r: &'static str)
        ensures
            r@ == self.spec_interaction_profile_path(),
    {
        match self {
            Self::Oculus => "/interaction_profiles/oculus/touch_controller",
            Self::Vive => "/interaction_profiles/htc/vive_controller",
            Self::Valve => "/interaction_profiles/valve/index_controller",
            Self::KhronosSimple => "/interaction_profiles/khr/simple_controller",
        }
    }
}

} // verus!

verus! {

/// One input of a controller: the kind of value it yields and its path below
/// `/user/hand/<hand>/input/`.
#[derive(Debug, Clone, Copy)]
pub struct XrInputBinding {
    pub kind: XrInputKind,
    pub input_path: &'static str,
}

/// The inputs of a controller family on one hand, in the order their actions are created.
pub open spec fn spec_input_bindings(profile: XrControllerProfile, hand: XrHand) -> Seq<(XrInputKind, Seq<char>)> {
    match profile {
        XrControllerProfile::Oculus => seq![
                (XrInputKind::Analog2d, "thumbstick"@),
                (XrInputKind::Digital, "thumbstick/click"@),
                (XrInputKind::Digital, "thumbstick/touch"@),
                (XrInputKind::Analog, "squeeze/value"@),
                (XrInputKind::Analog, "trigger/value"@),
                (XrInputKind::Pose, "grip/pose"@),
                (XrInputKind::Pose, "aim/pose"@),
            ] + match hand {
            XrHand::Left => seq![
                    (XrInputKind::Digital, "menu/click"@),
                    (XrInputKind::Digital, "x/click"@),
                    (XrInputKind::Digital, "x/touch"@),
                    (XrInputKind::Digital, "y/click"@),
                    (XrInputKind::Digital, "y/touch"@),
                ],
            XrHand::Right => seq![
                    (XrInputKind::Digital, "system/click"@),
                    (XrInputKind::Digital, "a/click"@),
                    (XrInputKind::Digital, "a/touch"@),
                    (XrInputKind::Digital, "b/click"@),
                    (XrInputKind::Digital, "b/touch"@),
                ],
        },
        XrControllerProfile::Vive => seq![
            (XrInputKind::Digital, "system/click"@),
            (XrInputKind::Digital, "squeeze/click"@),
            (XrInputKind::Digital, "menu/click"@),
            (XrInputKind::Analog, "trigger/value"@),
            (XrInputKind::Digital, "trigger/click"@),
            (XrInputKind::Analog2d, "trackpad"@),
            (XrInputKind::Digital, "trackpad/click"@),
            (XrInputKind::Digital, "trackpad/touch"@),
            (XrInputKind::Pose, "grip/pose"@),
            (XrInputKind::Pose, "aim/pose"@),
        ],
        XrControllerProfile::Valve => seq![
            (XrInputKind::Digital, "system/click"@),
            (XrInputKind::Digital, "system/touch"@),
            (XrInputKind::Digital, "a/click"@),
            (XrInputKind::Digital, "a/touch"@),
            (XrInputKind::Digital, "b/click"@),
            (XrInputKind::Digital, "b/touch"@),
            (XrInputKind::Analog, "squeeze/value"@),
            (XrInputKind::Analog, "squeeze/force"@),
            (XrInputKind::Digital, "trigger/click"@),
            (XrInputKind::Analog, "trigger/value"@),
            (XrInputKind::Digital, "trigger/touch"@),
            (XrInputKind::Analog2d, "thumbstick"@),
            (XrInputKind::Digital, "thumbstick/click"@),
            (XrInputKind::Digital, "thumbstick/touch"@),
            (XrInputKind::Analog2d, "trackpad"@),
            (XrInputKind::Digital, "trackpad/touch"@),
            (XrInputKind::Analog, "trackpad/force"@),
            (XrInputKind::Pose, "grip/pose"@),
            (XrInputKind::Pose, "aim/pose"@),
        ],
        XrControllerProfile::KhronosSimple => seq![
            (XrInputKind::Digital, "menu/click"@),
            (XrInputKind::Digital, "system/click"@),
            (XrInputKind::Pose, "grip/pose"@),
            (XrInputKind::Pose, "aim/pose"@),
        ],
    }
}

/// `p` ends with the characters of `suffix`.
pub open spec fn has_suffix(p: Seq<char>, suffix: Seq<char>) -> bool {
    p.len() >= suffix.len() && p.subrange(p.len() - suffix.len(), p.len() as int) =~= suffix
}

/// The OpenXR value type of an input path: a button's `/click` or `/touch` is a boolean, a
/// `/value` or `/force` is a single float, a `/pose` is a pose, and a bare `thumbstick` or
/// `trackpad` is a two-axis vector.
pub open spec fn kind_fits_path(kind: XrInputKind, p: Seq<char>) -> bool {
    match kind {
        XrInputKind::Digital => has_suffix(p, "/click"@) || has_suffix(p, "/touch"@),
        XrInputKind::Analog => has_suffix(p, "/value"@) || has_suffix(p, "/force"@),
        XrInputKind::Pose => has_suffix(p, "/pose"@),
        XrInputKind::Analog2d => p == "thumbstick"@ || p == "trackpad"@,
    }
}

/// Every binding a controller offers yields the OpenXR value type its path names.
pub proof fn lemma_binding_kinds_fit_paths(profile: XrControllerProfile, hand: XrHand)
    ensures
        forall|i: int|
            0 <= i < spec_input_bindings(profile, hand).len() ==> #[trigger] kind_fits_path(
                spec_input_bindings(profile, hand)[i].0,
                spec_input_bindings(profile, hand)[i].1,
            ),
{
        reveal_strlit("/click");
        reveal_strlit("/force");
        reveal_strlit("/pose");
        reveal_strlit("/touch");
        reveal_strlit("/value");
        reveal_strlit("a/click");
        reveal_strlit("a/touch");
        reveal_strlit("aim/pose");
        reveal_strlit("b/click");
        reveal_strlit("b/touch");
        reveal_strlit("grip/pose");
        reveal_strlit("menu/click");
        reveal_strlit("squeeze/click");
        reveal_strlit("squeeze/force");
        reveal_strlit("squeeze/value");
        reveal_strlit("system/click");
        reveal_strlit("system/touch");
        reveal_strlit("thumbstick");
        reveal_strlit("thumbstick/click");
        reveal_strlit("thumbstick/touch");
        reveal_strlit("trackpad");
        reveal_strlit("trackpad/click");
        reveal_strlit("trackpad/force");
        reveal_strlit("trackpad/touch");
        reveal_strlit("trigger/click");
        reveal_strlit("trigger/touch");
        reveal_strlit("trigger/value");
        reveal_strlit("x/click");
        reveal_strlit("x/touch");
        reveal_strlit("y/click");
        reveal_strlit("y/touch");
        assert("a/click"@.subrange(1, 7) =~= "/click"@);
        assert("a/touch"@.subrange(1, 7) =~= "/touch"@);
        assert("aim/pose"@.subrange(3, 8) =~= "/pose"@);
        assert("b/click"@.subrange(1, 7) =~= "/click"@);
        assert("b/touch"@.subrange(1, 7) =~= "/touch"@);
        assert("grip/pose"@.subrange(4, 9) =~= "/pose"@);
        assert("menu/click"@.subrange(4, 10) =~= "/click"@);
        assert("squeeze/click"@.subrange(7, 13) =~= "/click"@);
        assert("squeeze/force"@.subrange(7, 13) =~= "/force"@);
        assert("squeeze/value"@.subrange(7, 13) =~= "/value"@);
        assert("system/click"@.subrange(6, 12) =~= "/click"@);
        assert("system/touch"@.subrange(6, 12) =~= "/touch"@);
        assert("thumbstick/click"@.subrange(10, 16) =~= "/click"@);
        assert("thumbstick/touch"@.subrange(10, 16) =~= "/touch"@);
        assert("trackpad/click"@.subrange(8, 14) =~= "/click"@);
        assert("trackpad/force"@.subrange(8, 14) =~= "/force"@);
        assert("trackpad/touch"@.subrange(8, 14) =~= "/touch"@);
        assert("trigger/click"@.subrange(7, 13) =~= "/click"@);
        assert("trigger/touch"@.subrange(7, 13) =~= "/touch"@);
        assert("trigger/value"@.subrange(7, 13) =~= "/value"@);
        assert("x/click"@.subrange(1, 7) =~= "/click"@);
        assert("x/touch"@.subrange(1, 7) =~= "/touch"@);
        assert("y/click"@.subrange(1, 7) =~= "/click"@);
        assert("y/touch"@.subrange(1, 7) =~= "/touch"@);
    let b = spec_input_bindings(profile, hand);
    assert forall|i: int| 0 <= i < b.len() implies #[trigger] kind_fits_path(b[i].0, b[i].1) by {
    }
}

/// The kind and path of every binding, as plain values.
pub open spec fn bindings_view(b: Seq<XrInputBinding>) -> Seq<(XrInputKind, Seq<char>)> {
    b.map_values(|x: XrInputBinding| (x.kind, x.input_path@))
}

fn push_binding(v: &mut Vec<XrInputBinding>, kind: XrInputKind, input_path: &'static str)
    ensures
        bindings_view(final(v)@) == bindings_view(old(v)@).push((kind, input_path@)),
{
    v.push(XrInputBinding { kind, input_path });
    proof {
        assert(bindings_view(v@) =~= bindings_view(old(v)@).push((kind, input_path@)));
    }
}

impl XrControllerProfile {
    /// The inputs this controller family offers on `hand`, in the order their actions are
    /// created.
    pub fn input_bindings(&self, hand: XrHand) -> (r: Vec<XrInputBinding>)
        ensures
            bindings_view(r@) == spec_input_bindings(*self, hand),
            forall|i: int| 0 <= i < r@.len() ==> #[trigger] kind_fits_path(r@[i].kind, r@[i].input_path@),
    {
        let mut r: Vec<XrInputBinding> = Vec::new();
        proof {
            assert(bindings_view(r@) =~= Seq::<(XrInputKind, Seq<char>)>::empty());
        }
        match self {
            Self::Oculus => {
                push_binding(&mut r, XrInputKind::Analog2d, "thumbstick");
                push_binding(&mut r, XrInputKind::Digital, "thumbstick/click");
                push_binding(&mut r, XrInputKind::Digital, "thumbstick/touch");
                push_binding(&mut r, XrInputKind::Analog, "squeeze/value");
                push_binding(&mut r, XrInputKind::Analog, "trigger/value");
                push_binding(&mut r, XrInputKind::Pose, "grip/pose");
                push_binding(&mut r, XrInputKind::Pose, "aim/pose");
                match hand {
                    XrHand::Left => {
                        push_binding(&mut r, XrInputKind::Digital, "menu/click");
                        push_binding(&mut r, XrInputKind::Digital, "x/click");
                        push_binding(&mut r, XrInputKind::Digital, "x/touch");
                        push_binding(&mut r, XrInputKind::Digital, "y/click");
                        push_binding(&mut r, XrInputKind::Digital, "y/touch");
                    },
                    XrHand::Right => {
                        push_binding(&mut r, XrInputKind::Digital, "system/click");
                        push_binding(&mut r, XrInputKind::Digital, "a/click");
                        push_binding(&mut r, XrInputKind::Digital, "a/touch");
                        push_binding(&mut r, XrInputKind::Digital, "b/click");
                        push_binding(&mut r, XrInputKind::Digital, "b/touch");
                    },
                }
            },
            Self::Vive => {
                push_binding(&mut r, XrInputKind::Digital, "system/click");
                push_binding(&mut r, XrInputKind::Digital, "squeeze/click");
                push_binding(&mut r, XrInputKind::Digital, "menu/click");
                push_binding(&mut r, XrInputKind::Analog, "trigger/value");
                push_binding(&mut r, XrInputKind::Digital, "trigger/click");
                push_binding(&mut r, XrInputKind::Analog2d, "trackpad");
                push_binding(&mut r, XrInputKind::Digital, "trackpad/click");
                push_binding(&mut r, XrInputKind::Digital, "trackpad/touch");
                push_binding(&mut r, XrInputKind::Pose, "grip/pose");
                push_binding(&mut r, XrInputKind::Pose, "aim/pose");
            },
            Self::Valve => {
                push_binding(&mut r, XrInputKind::Digital, "system/click");
                push_binding(&mut r, XrInputKind::Digital, "system/touch");
                push_binding(&mut r, XrInputKind::Digital, "a/click");
                push_binding(&mut r, XrInputKind::Digital, "a/touch");
                push_binding(&mut r, XrInputKind::Digital, "b/click");
                push_binding(&mut r, XrInputKind::Digital, "b/touch");
                push_binding(&mut r, XrInputKind::Analog, "squeeze/value");
                push_binding(&mut r, XrInputKind::Analog, "squeeze/force");
                push_binding(&mut r, XrInputKind::Digital, "trigger/click");
                push_binding(&mut r, XrInputKind::Analog, "trigger/value");
                push_binding(&mut r, XrInputKind::Digital, "trigger/touch");
                push_binding(&mut r, XrInputKind::Analog2d, "thumbstick");
                push_binding(&mut r, XrInputKind::Digital, "thumbstick/click");
                push_binding(&mut r, XrInputKind::Digital, "thumbstick/touch");
                push_binding(&mut r, XrInputKind::Analog2d, "trackpad");
                push_binding(&mut r, XrInputKind::Digital, "trackpad/touch");
                push_binding(&mut r, XrInputKind::Analog, "trackpad/force");
                push_binding(&mut r, XrInputKind::Pose, "grip/pose");
                push_binding(&mut r, XrInputKind::Pose, "aim/pose");
            },
            Self::KhronosSimple => {
                push_binding(&mut r, XrInputKind::Digital, "menu/click");
                push_binding(&mut r, XrInputKind::Digital, "system/click");
                push_binding(&mut r, XrInputKind::Pose, "grip/pose");
                push_binding(&mut r, XrInputKind::Pose, "aim/pose");
            },
        }
        proof {
            assert(bindings_view(r@) =~= spec_input_bindings(*self, hand));
            lemma_binding_kinds_fit_paths(*self, hand);
            assert forall|i: int| 0 <= i < r@.len() implies #[trigger] kind_fits_path(r@[i].kind, r@[i].input_path@) by {
                assert(bindings_view(r@)[i] == (r@[i].kind, r@[i].input_path@));
                assert(kind_fits_path(
                    spec_input_bindings(*self, hand)[i].0,
                    spec_input_bindings(*self, hand)[i].1,
                ));
            }
        }
        r
    }
}

} // verus!

verus! {

/// `s` with every `/` turned into `_`.
pub open spec fn slashes_to_underscores(s: Seq<char>) -> Seq<char> {
    s.map_values(|c: char| if c == '/' { '_' } else { c })
}

/// `s` with every `/` replaced by `_`, every other character kept in place.
fn replace_slashes(s: &str) -> (r: String)
    ensures
        r@ == slashes_to_underscores(s@),
{
    let chars = chars_of(s);
    let mut r = String::new();
    let mut i: usize = 0;
    proof {
        reveal_strlit("_");
    }
    while i < chars.len()
        invariant
            chars@ == s@,
            i <= chars@.len(),
            r@ == slashes_to_underscores(s@.subrange(0, i as int)),
            "_"@ == seq!['_'],
        decreases chars@.len() - i,
    {
        let ghost before = r@;
        if chars[i] == '/' {
            r.append("_");
        } else {
            r.append(s.substring_char(i, i + 1));
        }
        proof {
            assert(s@.subrange(0, i + 1) =~= s@.subrange(0, i as int).push(s@[i as int]));
            assert(slashes_to_underscores(s@.subrange(0, i + 1)) =~= before + seq![
                if s@[i as int] == '/' { '_' } else { s@[i as int] }
            ]);
            assert(s@.subrange(i as int, i + 1) =~= seq![s@[i as int]]);
        }
        i = i + 1;
    }
    proof {
        assert(s@.subrange(0, s@.len() as int) =~= s@);
    }
    r
}

/// The full path of the input `input_path` of `hand`: `/user/hand/<hand>/input/<input_path>`.
pub fn input_action_path(hand: XrHand, input_path: &str) -> (r: String)
    ensures
        r@ == "/user/hand/"@ + hand.spec_name() + "/input/"@ + input_path@,
{
    let mut r = String::new();
    r.append("/user/hand/");
    r.append(hand.name());
    r.append("/input/");
    r.append(input_path);
    r
}

/// The name of the action bound to the input `input_path` of `hand`: the hand's name, `_`,
/// and the path with every `/` turned into `_`.
pub fn input_action_name(hand: XrHand, input_path: &str) -> (r: String)
    ensures
        r@ == hand.spec_name() + "_"@ + slashes_to_underscores(input_path@),
{
    let mut r = String::new();
    r.append(hand.name());
    r.append("_");
    let tail = replace_slashes(input_path);
    r.append(tail.as_str());
    r
}

/// The key under which the state of input `id` of `hand` is looked up:
/// `/user/hand/<hand><id>`.
pub fn hand_input_key(hand: XrHand, id: &str) -> (r: String)
    ensures
        r@ == "/user/hand/"@ + hand.spec_name() + id@,
{
    let mut r = String::new();
    r.append("/user/hand/");
    r.append(hand.name());
    r.append(id);
    r
}

} // verus!
