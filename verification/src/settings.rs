//! The promotions the user tracks: adding one and editing its settings.

use vstd::prelude::*;
use crate::cagematch::{promotion_url_spec, CagematchClient, PromotionMetadata};

verus! {

/// A request to track a promotion, named by its cagematch.net number.
pub struct AddPromotionInput {
    pub nickname: String,
    pub cagematch_id: i32,
    pub accent_color: Option<String>,
}

/// A change to a promotion's settings; each field that is given replaces the
/// stored one.
pub struct UpdatePromotionInput {
    pub nickname: Option<String>,
    pub accent_color: Option<String>,
    pub enabled: Option<bool>,
}

/// The settings of a tracked promotion that the user edits.
pub struct PromotionSettings {
    pub nickname: String,
    pub accent_color: Option<String>,
    pub enabled: bool,
}

/// `PromotionSettings` as plain values.
pub struct SettingsView {
    pub nickname: Seq<char>,
    pub accent_color: Option<Seq<char>>,
    pub enabled: bool,
}

/// `UpdatePromotionInput` as plain values.
pub struct UpdateView {
    pub nickname: Option<Seq<char>>,
    pub accent_color: Option<Seq<char>>,
    pub enabled: Option<bool>,
}

impl DeepView for PromotionSettings {
    type V = SettingsView;

    open spec fn deep_view(&self) -> SettingsView {
        SettingsView {
            nickname: self.nickname@,
            accent_color: self.accent_color.deep_view(),
            enabled: self.enabled,
        }
    }
}

impl DeepView for UpdatePromotionInput {
    type V = UpdateView;

    open spec fn deep_view(&self) -> UpdateView {
        UpdateView {
            nickname: self.nickname.deep_view(),
            accent_color: self.accent_color.deep_view(),
            enabled: self.enabled,
        }
    }
}

/// The settings after `update` is applied to `current`.
pub open spec fn updated_settings(update: UpdateView, current: SettingsView) -> SettingsView {
    SettingsView {
        nickname: match update.nickname {
            Some(n) => n,
            None => current.nickname,
        },
        accent_color: match update.accent_color {
            Some(a) => Some(a),
            None => current.accent_color,
        },
        enabled: match update.enabled {
            Some(e) => e,
            None => current.enabled,
        },
    }
}

/// A change that gives no field.
pub open spec fn empty_update() -> UpdateView {
    UpdateView { nickname: None, accent_color: None, enabled: None }
}

/// A change that gives no field leaves the settings as they were.
pub proof fn law_empty_update_keeps_settings(current: SettingsView)
    ensures
        updated_settings(empty_update(), current) == current,
{
}

/// Applying the same change twice is the same as applying it once.
pub proof fn law_update_idempotent(update: UpdateView, current: SettingsView)
    ensures
        updated_settings(update, updated_settings(update, current)) == updated_settings(
            update,
            current,
        ),
{
}

/// A change sets the fields it gives and leaves the others alone.
pub proof fn law_update_touches_only_given(update: UpdateView, current: SettingsView)
    ensures
        ({
            let r = updated_settings(update, current);
            &&& (update.nickname matches Some(n) ==> r.nickname == n)
            &&& (update.nickname is None ==> r.nickname == current.nickname)
            &&& (update.accent_color is Some ==> r.accent_color == update.accent_color)
            &&& (update.accent_color is None ==> r.accent_color == current.accent_color)
            &&& (update.enabled matches Some(e) ==> r.enabled == e)
            &&& (update.enabled is None ==> r.enabled == current.enabled)
        }),
{
}

impl UpdatePromotionInput {
    /// The settings after this change: given fields replace, others stay.
    pub fn apply(self, current: PromotionSettings) -> (r: PromotionSettings)
        ensures
            r.deep_view() == updated_settings(self.deep_view(), current.deep_view()),
    {
        PromotionSettings {
            nickname: match self.nickname {
                Some(n) => n,
                None => current.nickname,
            },
            accent_color: match self.accent_color {
                Some(a) => Some(a),
                None => current.accent_color,
            },
            enabled: match self.enabled {
                Some(e) => e,
                None => current.enabled,
            },
        }
    }
}

/// A promotion about to be stored.
pub struct NewPromotion {
    pub cagematch_id: i32,
    pub nickname: String,
    pub metadata: PromotionMetadata,
    pub cagematch_url: Option<String>,
    pub accent_color: Option<String>,
    pub enabled: bool,
}

impl AddPromotionInput {
    /// The promotion this request adds: enabled, with the address of its
    /// cagematch.net page, and no metadata until it is scraped.
    pub fn into_new_promotion(self, client: &CagematchClient) -> (r: NewPromotion)
        ensures
            r.cagematch_id == self.cagematch_id,
            r.nickname@ == self.nickname@,
            r.metadata.canonical_name is None,
            r.metadata.abbreviation is None,
            r.metadata.country is None,
            r.metadata.logo_url is None,
            r.cagematch_url.deep_view() == Some(
                promotion_url_spec(client.base_url@, self.cagematch_id),
            ),
            r.accent_color.deep_view() == self.accent_color.deep_view(),
            r.enabled,
    {
        let url = client.promotion_url(self.cagematch_id);
        NewPromotion {
            cagematch_id: self.cagematch_id,
            nickname: self.nickname,
            metadata: PromotionMetadata::default(),
            cagematch_url: Some(url),
            accent_color: self.accent_color,
            enabled: true,
        }
    }
}

} // verus!
