//! Requests: what a caller asks for, as text and resolved.
//!
//! A request names the base icon, a scale, and up to five further layers.
//! In its raw form every part is text. In its resolved form every layer is a
//! canonical id and the scale is a whole number from 1 to 8.

use vstd::prelude::*;
use crate::compose::{LayerRole, LAYER_COUNT};
use crate::decimal::{read_unsigned, unsigned_value};
use crate::encode::{valid_scale, MAX_SCALE, MIN_SCALE};
use crate::error::IconError;
use crate::ident::{canonical_id, parse_decimal_or_hex_string};
use crate::names::{named_layer, resolve_named, NamedIcon};

verus! {

/// The scale of a request that names none.
pub const DEFAULT_SCALE: u32 = 1;

/// A request as it arrives: the identifier of the base icon and the optional
/// parameters, each as the text that was sent.
#[derive(Clone, Debug)]
pub struct RawRequest {
    pub icon_id: String,
    pub scale: Option<String>,
    pub background: Option<String>,
    pub underlay: Option<String>,
    pub overlay: Option<String>,
    pub overlay2: Option<String>,
    pub ui_effect: Option<String>,
}

/// The names that a request may use: those of the backgrounds and those of
/// the effects.
#[derive(Clone, Debug)]
pub struct NameTables {
    pub backgrounds: Vec<NamedIcon>,
    pub effects: Vec<NamedIcon>,
}

/// The numbers drawn for a request, one for a `random` background and one
/// for a `random` effect.
#[derive(Clone, Copy, Debug, PartialEq, Eq, Structural)]
pub struct Draws {
    pub background: u64,
    pub effect: u64,
}

/// What a resolved request holds: the scale, and for each place of the
/// stack the canonical id of its layer, if it has one.
pub struct RequestModel {
    pub scale: u32,
    pub ids: Seq<Option<i32>>,
}

/// A resolved request. The scale is from 1 to 8 and the base is always
/// there.
#[derive(Clone, Copy, Debug)]
pub struct IconRequest {
    scale: u32,
    background: Option<i32>,
    underlay: Option<i32>,
    base: i32,
    overlay: Option<i32>,
    overlay2: Option<i32>,
    effect: Option<i32>,
}

impl View for IconRequest {
    type V = RequestModel;

    closed spec fn view(&self) -> RequestModel {
        RequestModel {
            scale: self.scale,
            ids: seq![
                self.background,
                self.underlay,
                Some(self.base),
                self.overlay,
                self.overlay2,
                self.effect,
            ],
        }
    }
}

impl RequestModel {
    /// True for what a resolved request can hold: a scale from 1 to 8, six
    /// places, and a base.
    pub open spec fn valid(self) -> bool {
        &&& valid_scale(self.scale as int)
        &&& self.ids.len() == LAYER_COUNT
        &&& self.ids[2] is Some
    }

    /// The request for `base` alone at the given scale.
    pub open spec fn plain(base: i32, scale: u32) -> RequestModel {
        RequestModel { scale, ids: seq![None, None, Some(base), None, None, None] }
    }
}

impl IconRequest {
    #[verifier::type_invariant]
    spec fn well_formed(self) -> bool {
        valid_scale(self.scale as int)
    }

    /// A request for `base` alone. A scale outside 1 to 8 fails with
    /// [`IconError::InvalidScale`].
    pub fn new(base: i32, scale: u32) -> (r: Result<IconRequest, IconError>)
        ensures
            valid_scale(scale as int) ==> (r matches Ok(request) && request@
                == RequestModel::plain(base, scale)),
            !valid_scale(scale as int) ==> (r matches Err(e) && e == IconError::InvalidScale),
    {
        if scale < MIN_SCALE || scale > MAX_SCALE {
            return Err(IconError::InvalidScale);
        }
        let request = IconRequest {
            scale,
            background: None,
            underlay: None,
            base,
            overlay: None,
            overlay2: None,
            effect: None,
        };
        assert(request@.ids =~= RequestModel::plain(base, scale).ids);
        Ok(request)
    }

    /// The request with `id` in the place of `role`.
    pub fn with_layer(self, role: LayerRole, id: i32) -> (request: IconRequest)
        ensures
            request@.scale == self@.scale,
            request@.ids == self@.ids.update(role.spec_index(), Some(id)),
            request@.valid(),
    {
        proof {
            use_type_invariant(&self);
        }
        let mut request = self;
        match role {
            LayerRole::Background => {
                request.background = Some(id);
            },
            LayerRole::Underlay => {
                request.underlay = Some(id);
            },
            LayerRole::Base => {
                request.base = id;
            },
            LayerRole::Overlay => {
                request.overlay = Some(id);
            },
            LayerRole::Overlay2 => {
                request.overlay2 = Some(id);
            },
            LayerRole::Effect => {
                request.effect = Some(id);
            },
        }
        assert(request@.ids =~= self@.ids.update(role.spec_index(), Some(id)));
        request
    }

    /// The scale, from 1 to 8.
    pub fn scale(&self) -> (scale: u32)
        ensures
            scale == self@.scale,
            valid_scale(scale as int),
            self@.valid(),
    {
        proof {
            use_type_invariant(self);
        }
        self.scale
    }

    /// The canonical id of the base.
    pub fn base(&self) -> (id: i32)
        ensures
            self@.ids[2] == Some(id),
    {
        self.base
    }

    /// The canonical id in the place of `role`, if the request names one.
    pub fn layer(&self, role: LayerRole) -> (id: Option<i32>)
        ensures
            id == self@.ids[role.spec_index()],
            self@.valid(),
    {
        proof {
            use_type_invariant(self);
        }
        match role {
            LayerRole::Background => self.background,
            LayerRole::Underlay => self.underlay,
            LayerRole::Base => Some(self.base),
            LayerRole::Overlay => self.overlay,
            LayerRole::Overlay2 => self.overlay2,
            LayerRole::Effect => self.effect,
        }
    }
}

/// The text of an optional parameter.
pub open spec fn text_of(parameter: Option<String>) -> Option<Seq<char>> {
    match parameter {
        Some(text) => Some(text@),
        None => None,
    }
}

/// The scale that the text of a scale parameter asks for: 1 where there is
/// no text, the number where the text is a decimal number from 1 to 8, and
/// an invalid scale otherwise.
pub open spec fn scale_of(text: Option<Seq<char>>) -> Result<u32, IconError> {
    match text {
        None => Ok(DEFAULT_SCALE),
        Some(t) => match unsigned_value(t, u32::MAX as int) {
            Some(v) => if valid_scale(v) {
                Ok(v as u32)
            } else {
                Err(IconError::InvalidScale)
            },
            None => Err(IconError::InvalidScale),
        },
    }
}

/// The canonical id that the text of an optional layer asks for: none where
/// there is no text, and an invalid identifier where the text names no id.
pub open spec fn layer_of(text: Option<Seq<char>>) -> Result<Option<i32>, IconError> {
    match text {
        None => Ok(None),
        Some(t) => match canonical_id(t) {
            Some(id) => Ok(Some(id as i32)),
            None => Err(IconError::InvalidIdentifier),
        },
    }
}

/// The canonical id that the text of an optional background or effect asks
/// for: none where there is no text, and an invalid name where the text is
/// neither `random` nor an identifier nor a name of the table.
pub open spec fn named_of(table: Seq<NamedIcon>, text: Option<Seq<char>>, draw: u64) -> Result<
    Option<i32>,
    IconError,
> {
    match text {
        None => Ok(None),
        Some(t) => match named_layer(table, t, draw) {
            Ok(id) => Ok(Some(id)),
            Err(e) => Err(e),
        },
    }
}

/// The resolved form of a raw request.
///
/// The parts are taken in this order and the first that fails decides the
/// error: base identifier, scale, background, underlay, overlay, second
/// overlay, effect. The background and the effect may be given by name.
pub open spec fn resolved(raw: RawRequest, names: NameTables, draws: Draws) -> Result<
    RequestModel,
    IconError,
> {
    match canonical_id(raw.icon_id@) {
        None => Err(IconError::InvalidIdentifier),
        Some(base) => match scale_of(text_of(raw.scale)) {
            Err(e) => Err(e),
            Ok(scale) => match named_of(
                names.backgrounds@,
                text_of(raw.background),
                draws.background,
            ) {
                Err(e) => Err(e),
                Ok(background) => match layer_of(text_of(raw.underlay)) {
                    Err(e) => Err(e),
                    Ok(underlay) => match layer_of(text_of(raw.overlay)) {
                        Err(e) => Err(e),
                        Ok(overlay) => match layer_of(text_of(raw.overlay2)) {
                            Err(e) => Err(e),
                            Ok(overlay2) => match named_of(
                                names.effects@,
                                text_of(raw.ui_effect),
                                draws.effect,
                            ) {
                                Err(e) => Err(e),
                                Ok(effect) => Ok(
                                    RequestModel {
                                        scale,
                                        ids: seq![
                                            background,
                                            underlay,
                                            Some(base as i32),
                                            overlay,
                                            overlay2,
                                            effect,
                                        ],
                                    },
                                ),
                            },
                        },
                    },
                },
            },
        },
    }
}

/// Reads the scale of a request from the text of its scale parameter.
pub fn parse_scale(text: &Option<String>) -> (r: Result<u32, IconError>)
    ensures
        r == scale_of(text_of(*text)),
{
    match text {
        None => Ok(DEFAULT_SCALE),
        Some(t) => match read_unsigned(t.as_str(), 0xffff_ffff) {
            Some(v) => {
                if v < MIN_SCALE as u64 || v > MAX_SCALE as u64 {
                    Err(IconError::InvalidScale)
                } else {
                    Ok(v as u32)
                }
            },
            None => Err(IconError::InvalidScale),
        },
    }
}

/// Resolves the text of an optional layer.
pub fn parse_layer(text: &Option<String>) -> (r: Result<Option<i32>, IconError>)
    ensures
        r == layer_of(text_of(*text)),
{
    match text {
        None => Ok(None),
        Some(t) => match parse_decimal_or_hex_string(t.as_str()) {
            Ok(id) => Ok(Some(id)),
            Err(_) => Err(IconError::InvalidIdentifier),
        },
    }
}

/// Resolves the text of an optional background or effect.
pub fn parse_named(table: &Vec<NamedIcon>, text: &Option<String>, draw: u64) -> (r: Result<
    Option<i32>,
    IconError,
>)
    ensures
        r == named_of(table@, text_of(*text), draw),
{
    match text {
        None => Ok(None),
        Some(t) => match resolve_named(table, t.as_str(), draw) {
            Ok(id) => Ok(Some(id)),
            Err(e) => Err(e),
        },
    }
}

/// Resolves a raw request: every identifier and name to its canonical id,
/// and the scale to a number from 1 to 8.
///
/// A malformed base, underlay or overlay fails with
/// [`IconError::InvalidIdentifier`], a scale that is no number from 1 to 8
/// with [`IconError::InvalidScale`], and a background or effect that is
/// neither an identifier nor a known name with
/// [`IconError::InvalidSymbolicName`].
pub fn resolve_request(raw: &RawRequest, names: &NameTables, draws: Draws) -> (r: Result<
    IconRequest,
    IconError,
>)
    ensures
        match resolved(*raw, *names, draws) {
            Ok(model) => r matches Ok(request) && request@ == model && model.valid(),
            Err(e) => r matches Err(f) && f == e,
        },
{
    let base: i32 = match parse_decimal_or_hex_string(raw.icon_id.as_str()) {
        Ok(id) => id,
        Err(_) => {
            return Err(IconError::InvalidIdentifier);
        },
    };
    let scale: u32 = match parse_scale(&raw.scale) {
        Ok(scale) => scale,
        Err(e) => {
            return Err(e);
        },
    };
    let background: Option<i32> = match parse_named(
        &names.backgrounds,
        &raw.background,
        draws.background,
    ) {
        Ok(id) => id,
        Err(e) => {
            return Err(e);
        },
    };
    let underlay: Option<i32> = match parse_layer(&raw.underlay) {
        Ok(id) => id,
        Err(e) => {
            return Err(e);
        },
    };
    let overlay: Option<i32> = match parse_layer(&raw.overlay) {
        Ok(id) => id,
        Err(e) => {
            return Err(e);
        },
    };
    let overlay2: Option<i32> = match parse_layer(&raw.overlay2) {
        Ok(id) => id,
        Err(e) => {
            return Err(e);
        },
    };
    let effect: Option<i32> = match parse_named(&names.effects, &raw.ui_effect, draws.effect) {
        Ok(id) => id,
        Err(e) => {
            return Err(e);
        },
    };
    let request = IconRequest { scale, background, underlay, base, overlay, overlay2, effect };
    assert(request@.ids =~= resolved(*raw, *names, draws)->Ok_0.ids);
    Ok(request)
}

} // verus!
