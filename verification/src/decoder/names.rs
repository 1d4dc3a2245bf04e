//! What a rendered frame shows under which name.

use vstd::prelude::*;

use crate::capture::{reason_text, BadReason};
use crate::decoder::{
    bit, data_flag_text, dump_cal_cmd_text, dump_cal_resp_text, dump_data_text, dump_feature_text,
    dump_payload_text, dump_snapshot_text, dump_status_text, i16_texts, i16s_at, json_bad_text,
    json_cal_cmd_text, json_cal_resp_text, json_data_text, json_feature_text, json_frame_text,
    json_payload_text, json_reals_of, json_snapshot_text, json_status_text, kind_text, leading,
    list_text, node_text, report_flag_text, sum_abs, sum_u8, text_bad_text, text_frame_text,
    text_reals_of, u8_texts, Real,
};
use crate::protocol::payloads::{
    cal_cmd_at, cal_cmd_bytes, cal_cmd_round_trip, cal_resp_at, cal_resp_bytes, cal_resp_round_trip, csi_snapshot_bytes,
    csi_snapshot_layout, csi_snapshot_round_trip, data_bytes, feature_report_bytes,
    feature_report_layout, feature_report_round_trip, status_at,
};
use crate::protocol::{
    data_flags, frame_type, CalCmd, CalResp, CsiSnapshot, DataPayload, FeatureReport, Header,
};
use crate::text::{hex_text, int_text, nat_text};
use crate::wire::{i16_at, i8_of_u8, u32_at};

verus! {

/// Somewhere in `s` stands `key`, right behind it `value`, and then `next`.
pub open spec fn between(s: Seq<char>, key: Seq<char>, value: Seq<char>, next: Seq<char>) -> bool {
    exists|front: Seq<char>| #[trigger] (front + key + value + next).is_prefix_of(s)
}

/// `s` ends in `key` and `value`.
pub open spec fn at_the_end(s: Seq<char>, key: Seq<char>, value: Seq<char>) -> bool {
    exists|front: Seq<char>| #[trigger] (front + key + value) == s
}

/// What starts with more starts with less.
pub proof fn shorter_front(s: Seq<char>, p: Seq<char>, x: Seq<char>)
    requires
        (p + x).is_prefix_of(s),
    ensures
        p.is_prefix_of(s),
{
    assert(s.subrange(0, p.len() as int) =~= s.subrange(0, (p + x).len() as int).subrange(
        0,
        p.len() as int,
    ));
    assert((p + x).subrange(0, p.len() as int) =~= p);
}

/// The JSON object of a report shows each field under its name.
pub proof fn json_feature_names_its_values(r: FeatureReport, reals: Seq<Seq<char>>)
    ensures
        between(json_feature_text(feature_report_bytes(r), reals), "{\"seq\":"@, nat_text(r.seq as nat), ",\"n_frames\":"@),
        between(json_feature_text(feature_report_bytes(r), reals), ",\"n_frames\":"@, nat_text(r.n_frames as nat), ",\"n_missing\":"@),
        between(json_feature_text(feature_report_bytes(r), reals), ",\"n_missing\":"@, nat_text(r.n_missing as nat), ",\"rssi\":"@),
        between(json_feature_text(feature_report_bytes(r), reals), ",\"rssi\":"@, int_text(r.rssi as int), ",\"snr\":"@),
        between(json_feature_text(feature_report_bytes(r), reals), ",\"snr\":"@, int_text(r.snr as int), ",\"csi_quality\":"@),
        between(json_feature_text(feature_report_bytes(r), reals), ",\"csi_quality\":"@, nat_text(r.csi_quality as nat), ",\"sat_score\":"@),
        between(json_feature_text(feature_report_bytes(r), reals), ",\"sat_score\":"@, nat_text(r.sat_score as nat), ",\"dyn_range\":"@),
        between(json_feature_text(feature_report_bytes(r), reals), ",\"dyn_range\":"@, nat_text(r.dyn_range as nat), ",\"flags\":"@),
        between(json_feature_text(feature_report_bytes(r), reals), ",\"flags\":"@, nat_text(r.flags as nat), ",\"amp_mean\":"@),
        between(json_feature_text(feature_report_bytes(r), reals), ",\"amp_mean\":"@, reals[0], ",\"amp_std\":"@),
        between(json_feature_text(feature_report_bytes(r), reals), ",\"amp_std\":"@, reals[1], ",\"motion_energy\":"@),
        between(json_feature_text(feature_report_bytes(r), reals), ",\"motion_energy\":"@, reals[2], ",\"spectral_entropy\":"@),
        between(json_feature_text(feature_report_bytes(r), reals), ",\"spectral_entropy\":"@, reals[3], ",\"dominant_freq_hz\":"@),
        between(json_feature_text(feature_report_bytes(r), reals), ",\"dominant_freq_hz\":"@, reals[4], ",\"phase_dispersion\":"@),
        between(json_feature_text(feature_report_bytes(r), reals), ",\"phase_dispersion\":"@, reals[5], ",\"baseline_dev\":"@),
        between(json_feature_text(feature_report_bytes(r), reals), ",\"baseline_dev\":"@, reals[6], ",\"pca_scores\":"@),
        between(json_feature_text(feature_report_bytes(r), reals), ",\"pca_scores\":"@, list_text(reals.subrange(7, 15), ","@), "}"@),
{
    let p = feature_report_bytes(r);
    feature_report_layout(r);
    let p0 = Seq::<char>::empty();
    let p1 = "{\"seq\":"@;
    let p2 = p1 + nat_text(u32_at(p, 0) as nat);
    let p3 = p2 + ",\"n_frames\":"@;
    let p4 = p3 + nat_text(u32_at(p, 4) as nat);
    let p5 = p4 + ",\"n_missing\":"@;
    let p6 = p5 + nat_text(u32_at(p, 8) as nat);
    let p7 = p6 + ",\"rssi\":"@;
    let p8 = p7 + int_text(i16_at(p, 12) as int);
    let p9 = p8 + ",\"snr\":"@;
    let p10 = p9 + int_text(i8_of_u8(p[14]) as int);
    let p11 = p10 + ",\"csi_quality\":"@;
    let p12 = p11 + nat_text(p[15] as nat);
    let p13 = p12 + ",\"sat_score\":"@;
    let p14 = p13 + nat_text(p[16] as nat);
    let p15 = p14 + ",\"dyn_range\":"@;
    let p16 = p15 + nat_text(p[17] as nat);
    let p17 = p16 + ",\"flags\":"@;
    let p18 = p17 + nat_text(p[18] as nat);
    let p19 = p18 + ",\"amp_mean\":"@;
    let p20 = p19 + reals[0];
    let p21 = p20 + ",\"amp_std\":"@;
    let p22 = p21 + reals[1];
    let p23 = p22 + ",\"motion_energy\":"@;
    let p24 = p23 + reals[2];
    let p25 = p24 + ",\"spectral_entropy\":"@;
    let p26 = p25 + reals[3];
    let p27 = p26 + ",\"dominant_freq_hz\":"@;
    let p28 = p27 + reals[4];
    let p29 = p28 + ",\"phase_dispersion\":"@;
    let p30 = p29 + reals[5];
    let p31 = p30 + ",\"baseline_dev\":"@;
    let p32 = p31 + reals[6];
    let p33 = p32 + ",\"pca_scores\":"@;
    let p34 = p33 + list_text(reals.subrange(7, 15), ","@);
    let p35 = p34 + "}"@;
    assert(p35 == json_feature_text(feature_report_bytes(r), reals));
    assert(p35.is_prefix_of(p35));
    shorter_front(p35, p34, "}"@);
    shorter_front(p35, p33, list_text(reals.subrange(7, 15), ","@));
    shorter_front(p35, p32, ",\"pca_scores\":"@);
    shorter_front(p35, p31, reals[6]);
    shorter_front(p35, p30, ",\"baseline_dev\":"@);
    shorter_front(p35, p29, reals[5]);
    shorter_front(p35, p28, ",\"phase_dispersion\":"@);
    shorter_front(p35, p27, reals[4]);
    shorter_front(p35, p26, ",\"dominant_freq_hz\":"@);
    shorter_front(p35, p25, reals[3]);
    shorter_front(p35, p24, ",\"spectral_entropy\":"@);
    shorter_front(p35, p23, reals[2]);
    shorter_front(p35, p22, ",\"motion_energy\":"@);
    shorter_front(p35, p21, reals[1]);
    shorter_front(p35, p20, ",\"amp_std\":"@);
    shorter_front(p35, p19, reals[0]);
    shorter_front(p35, p18, ",\"amp_mean\":"@);
    shorter_front(p35, p17, nat_text(p[18] as nat));
    shorter_front(p35, p16, ",\"flags\":"@);
    shorter_front(p35, p15, nat_text(p[17] as nat));
    shorter_front(p35, p14, ",\"dyn_range\":"@);
    shorter_front(p35, p13, nat_text(p[16] as nat));
    shorter_front(p35, p12, ",\"sat_score\":"@);
    shorter_front(p35, p11, nat_text(p[15] as nat));
    shorter_front(p35, p10, ",\"csi_quality\":"@);
    shorter_front(p35, p9, int_text(i8_of_u8(p[14]) as int));
    shorter_front(p35, p8, ",\"snr\":"@);
    shorter_front(p35, p7, int_text(i16_at(p, 12) as int));
    shorter_front(p35, p6, ",\"rssi\":"@);
    shorter_front(p35, p5, nat_text(u32_at(p, 8) as nat));
    shorter_front(p35, p4, ",\"n_missing\":"@);
    shorter_front(p35, p3, nat_text(u32_at(p, 4) as nat));
    shorter_front(p35, p2, ",\"n_frames\":"@);
    shorter_front(p35, p1, nat_text(u32_at(p, 0) as nat));
    assert(p0 + "{\"seq\":"@ =~= p1);
    assert((p0 + "{\"seq\":"@ + nat_text(r.seq as nat) + ",\"n_frames\":"@).is_prefix_of(p35));
    assert((p2 + ",\"n_frames\":"@ + nat_text(r.n_frames as nat) + ",\"n_missing\":"@).is_prefix_of(p35));
    assert((p4 + ",\"n_missing\":"@ + nat_text(r.n_missing as nat) + ",\"rssi\":"@).is_prefix_of(p35));
    assert((p6 + ",\"rssi\":"@ + int_text(r.rssi as int) + ",\"snr\":"@).is_prefix_of(p35));
    assert((p8 + ",\"snr\":"@ + int_text(r.snr as int) + ",\"csi_quality\":"@).is_prefix_of(p35));
    assert((p10 + ",\"csi_quality\":"@ + nat_text(r.csi_quality as nat) + ",\"sat_score\":"@).is_prefix_of(p35));
    assert((p12 + ",\"sat_score\":"@ + nat_text(r.sat_score as nat) + ",\"dyn_range\":"@).is_prefix_of(p35));
    assert((p14 + ",\"dyn_range\":"@ + nat_text(r.dyn_range as nat) + ",\"flags\":"@).is_prefix_of(p35));
    assert((p16 + ",\"flags\":"@ + nat_text(r.flags as nat) + ",\"amp_mean\":"@).is_prefix_of(p35));
    assert((p18 + ",\"amp_mean\":"@ + reals[0] + ",\"amp_std\":"@).is_prefix_of(p35));
    assert((p20 + ",\"amp_std\":"@ + reals[1] + ",\"motion_energy\":"@).is_prefix_of(p35));
    assert((p22 + ",\"motion_energy\":"@ + reals[2] + ",\"spectral_entropy\":"@).is_prefix_of(p35));
    assert((p24 + ",\"spectral_entropy\":"@ + reals[3] + ",\"dominant_freq_hz\":"@).is_prefix_of(p35));
    assert((p26 + ",\"dominant_freq_hz\":"@ + reals[4] + ",\"phase_dispersion\":"@).is_prefix_of(p35));
    assert((p28 + ",\"phase_dispersion\":"@ + reals[5] + ",\"baseline_dev\":"@).is_prefix_of(p35));
    assert((p30 + ",\"baseline_dev\":"@ + reals[6] + ",\"pca_scores\":"@).is_prefix_of(p35));
    assert((p32 + ",\"pca_scores\":"@ + list_text(reals.subrange(7, 15), ","@) + "}"@).is_prefix_of(p35));
}

/// The JSON object of a snapshot shows each field under its name.
pub proof fn json_snapshot_names_its_values(s: CsiSnapshot, reals: Seq<Seq<char>>)
    ensures
        between(json_snapshot_text(csi_snapshot_bytes(s), reals), "{\"seq\":"@, nat_text(s.seq as nat), ",\"rssi\":"@),
        between(json_snapshot_text(csi_snapshot_bytes(s), reals), ",\"rssi\":"@, int_text(s.rssi as int), ",\"snr\":"@),
        between(json_snapshot_text(csi_snapshot_bytes(s), reals), ",\"snr\":"@, int_text(s.snr as int), ",\"csi_quality\":"@),
        between(json_snapshot_text(csi_snapshot_bytes(s), reals), ",\"csi_quality\":"@, nat_text(s.csi_quality as nat), ",\"noise_floor\":"@),
        between(json_snapshot_text(csi_snapshot_bytes(s), reals), ",\"noise_floor\":"@, reals[0], ",\"flags\":"@),
        between(json_snapshot_text(csi_snapshot_bytes(s), reals), ",\"flags\":"@, nat_text(s.flags as nat), ",\"n_sub\":"@),
        between(json_snapshot_text(csi_snapshot_bytes(s), reals), ",\"n_sub\":"@, nat_text(s.n_sub as nat), ",\"amp_mean\":"@),
        between(json_snapshot_text(csi_snapshot_bytes(s), reals), ",\"amp_mean\":"@, reals[1], ",\"spec_mean\":"@),
        between(json_snapshot_text(csi_snapshot_bytes(s), reals), ",\"spec_mean\":"@, reals[2], ",\"amp_first\":"@),
        between(json_snapshot_text(csi_snapshot_bytes(s), reals), ",\"amp_first\":"@, list_text(u8_texts(s.amp_norm@.take(8)), ","@), ",\"spec_first\":"@),
        between(json_snapshot_text(csi_snapshot_bytes(s), reals), ",\"spec_first\":"@, list_text(u8_texts(s.spec@.take(8)), ","@), ",\"iq_first\":"@),
        between(json_snapshot_text(csi_snapshot_bytes(s), reals), ",\"iq_first\":"@, list_text(i16_texts(s.iq@.take(8)), ","@), "}"@),
{
    let p = csi_snapshot_bytes(s);
    csi_snapshot_layout(s);
    csi_snapshot_round_trip(s, Seq::empty());
    assert(p.subrange(239, 247) =~= p.subrange(239, 295).take(8));
    assert(p.subrange(295, 303) =~= p.subrange(295, 359).take(8));
    assert(i16s_at(p, 15, 8) =~= s.iq@.take(8));
    let p0 = Seq::<char>::empty();
    let p1 = "{\"seq\":"@;
    let p2 = p1 + nat_text(u32_at(p, 0) as nat);
    let p3 = p2 + ",\"rssi\":"@;
    let p4 = p3 + int_text(i16_at(p, 4) as int);
    let p5 = p4 + ",\"snr\":"@;
    let p6 = p5 + int_text(i8_of_u8(p[6]) as int);
    let p7 = p6 + ",\"csi_quality\":"@;
    let p8 = p7 + nat_text(p[7] as nat);
    let p9 = p8 + ",\"noise_floor\":"@;
    let p10 = p9 + reals[0];
    let p11 = p10 + ",\"flags\":"@;
    let p12 = p11 + nat_text(p[12] as nat);
    let p13 = p12 + ",\"n_sub\":"@;
    let p14 = p13 + nat_text(p[13] as nat);
    let p15 = p14 + ",\"amp_mean\":"@;
    let p16 = p15 + reals[1];
    let p17 = p16 + ",\"spec_mean\":"@;
    let p18 = p17 + reals[2];
    let p19 = p18 + ",\"amp_first\":"@;
    let p20 = p19 + list_text(u8_texts(p.subrange(239, 247)), ","@);
    let p21 = p20 + ",\"spec_first\":"@;
    let p22 = p21 + list_text(u8_texts(p.subrange(295, 303)), ","@);
    let p23 = p22 + ",\"iq_first\":"@;
    let p24 = p23 + list_text(i16_texts(i16s_at(p, 15, 8)), ","@);
    let p25 = p24 + "}"@;
    assert(p25 == json_snapshot_text(csi_snapshot_bytes(s), reals));
    assert(p25.is_prefix_of(p25));
    shorter_front(p25, p24, "}"@);
    shorter_front(p25, p23, list_text(i16_texts(i16s_at(p, 15, 8)), ","@));
    shorter_front(p25, p22, ",\"iq_first\":"@);
    shorter_front(p25, p21, list_text(u8_texts(p.subrange(295, 303)), ","@));
    shorter_front(p25, p20, ",\"spec_first\":"@);
    shorter_front(p25, p19, list_text(u8_texts(p.subrange(239, 247)), ","@));
    shorter_front(p25, p18, ",\"amp_first\":"@);
    shorter_front(p25, p17, reals[2]);
    shorter_front(p25, p16, ",\"spec_mean\":"@);
    shorter_front(p25, p15, reals[1]);
    shorter_front(p25, p14, ",\"amp_mean\":"@);
    shorter_front(p25, p13, nat_text(p[13] as nat));
    shorter_front(p25, p12, ",\"n_sub\":"@);
    shorter_front(p25, p11, nat_text(p[12] as nat));
    shorter_front(p25, p10, ",\"flags\":"@);
    shorter_front(p25, p9, reals[0]);
    shorter_front(p25, p8, ",\"noise_floor\":"@);
    shorter_front(p25, p7, nat_text(p[7] as nat));
    shorter_front(p25, p6, ",\"csi_quality\":"@);
    shorter_front(p25, p5, int_text(i8_of_u8(p[6]) as int));
    shorter_front(p25, p4, ",\"snr\":"@);
    shorter_front(p25, p3, int_text(i16_at(p, 4) as int));
    shorter_front(p25, p2, ",\"rssi\":"@);
    shorter_front(p25, p1, nat_text(u32_at(p, 0) as nat));
    assert(p0 + "{\"seq\":"@ =~= p1);
    assert((p0 + "{\"seq\":"@ + nat_text(s.seq as nat) + ",\"rssi\":"@).is_prefix_of(p25));
    assert((p2 + ",\"rssi\":"@ + int_text(s.rssi as int) + ",\"snr\":"@).is_prefix_of(p25));
    assert((p4 + ",\"snr\":"@ + int_text(s.snr as int) + ",\"csi_quality\":"@).is_prefix_of(p25));
    assert((p6 + ",\"csi_quality\":"@ + nat_text(s.csi_quality as nat) + ",\"noise_floor\":"@).is_prefix_of(p25));
    assert((p8 + ",\"noise_floor\":"@ + reals[0] + ",\"flags\":"@).is_prefix_of(p25));
    assert((p10 + ",\"flags\":"@ + nat_text(s.flags as nat) + ",\"n_sub\":"@).is_prefix_of(p25));
    assert((p12 + ",\"n_sub\":"@ + nat_text(s.n_sub as nat) + ",\"amp_mean\":"@).is_prefix_of(p25));
    assert((p14 + ",\"amp_mean\":"@ + reals[1] + ",\"spec_mean\":"@).is_prefix_of(p25));
    assert((p16 + ",\"spec_mean\":"@ + reals[2] + ",\"amp_first\":"@).is_prefix_of(p25));
    assert((p18 + ",\"amp_first\":"@ + list_text(u8_texts(s.amp_norm@.take(8)), ","@) + ",\"spec_first\":"@).is_prefix_of(p25));
    assert((p20 + ",\"spec_first\":"@ + list_text(u8_texts(s.spec@.take(8)), ","@) + ",\"iq_first\":"@).is_prefix_of(p25));
    assert((p22 + ",\"iq_first\":"@ + list_text(i16_texts(s.iq@.take(8)), ","@) + "}"@).is_prefix_of(p25));
}

/// The JSON object of a command shows each field under its name.
pub proof fn json_cal_cmd_names_its_values(c: CalCmd)
    ensures
        between(json_cal_cmd_text(cal_cmd_bytes(c)), "{\"stage\":"@, nat_text(c.stage as nat), ",\"action\":"@),
        between(json_cal_cmd_text(cal_cmd_bytes(c)), ",\"action\":"@, nat_text(c.action as nat), ",\"collect_ms\":"@),
        between(json_cal_cmd_text(cal_cmd_bytes(c)), ",\"collect_ms\":"@, nat_text(c.collect_ms as nat), ",\"tx_power_db\":"@),
        between(json_cal_cmd_text(cal_cmd_bytes(c)), ",\"tx_power_db\":"@, int_text(c.tx_power_db as int), "}"@),
{
    let p = cal_cmd_bytes(c);
    cal_cmd_round_trip(c, Seq::empty());
    assert(p + Seq::empty() =~= p);
    let p0 = Seq::<char>::empty();
    let p1 = "{\"stage\":"@;
    let p2 = p1 + nat_text(cal_cmd_at(p).stage as nat);
    let p3 = p2 + ",\"action\":"@;
    let p4 = p3 + nat_text(cal_cmd_at(p).action as nat);
    let p5 = p4 + ",\"collect_ms\":"@;
    let p6 = p5 + nat_text(cal_cmd_at(p).collect_ms as nat);
    let p7 = p6 + ",\"tx_power_db\":"@;
    let p8 = p7 + int_text(cal_cmd_at(p).tx_power_db as int);
    let p9 = p8 + "}"@;
    assert(p9 == json_cal_cmd_text(cal_cmd_bytes(c)));
    assert(p9.is_prefix_of(p9));
    shorter_front(p9, p8, "}"@);
    shorter_front(p9, p7, int_text(cal_cmd_at(p).tx_power_db as int));
    shorter_front(p9, p6, ",\"tx_power_db\":"@);
    shorter_front(p9, p5, nat_text(cal_cmd_at(p).collect_ms as nat));
    shorter_front(p9, p4, ",\"collect_ms\":"@);
    shorter_front(p9, p3, nat_text(cal_cmd_at(p).action as nat));
    shorter_front(p9, p2, ",\"action\":"@);
    shorter_front(p9, p1, nat_text(cal_cmd_at(p).stage as nat));
    assert(p0 + "{\"stage\":"@ =~= p1);
    assert((p0 + "{\"stage\":"@ + nat_text(c.stage as nat) + ",\"action\":"@).is_prefix_of(p9));
    assert((p2 + ",\"action\":"@ + nat_text(c.action as nat) + ",\"collect_ms\":"@).is_prefix_of(p9));
    assert((p4 + ",\"collect_ms\":"@ + nat_text(c.collect_ms as nat) + ",\"tx_power_db\":"@).is_prefix_of(p9));
    assert((p6 + ",\"tx_power_db\":"@ + int_text(c.tx_power_db as int) + "}"@).is_prefix_of(p9));
}

/// The JSON object of a response shows each field under its name.
pub proof fn json_cal_resp_names_its_values(r: CalResp, reals: Seq<Seq<char>>)
    ensures
        between(json_cal_resp_text(cal_resp_bytes(r), reals), "{\"stage\":"@, nat_text(r.stage as nat), ",\"result\":"@),
        between(json_cal_resp_text(cal_resp_bytes(r), reals), ",\"result\":"@, nat_text(r.result as nat), ",\"rssi\":"@),
        between(json_cal_resp_text(cal_resp_bytes(r), reals), ",\"rssi\":"@, int_text(r.rssi as int), ",\"snr\":"@),
        between(json_cal_resp_text(cal_resp_bytes(r), reals), ",\"snr\":"@, int_text(r.snr as int), ",\"csi_quality\":"@),
        between(json_cal_resp_text(cal_resp_bytes(r), reals), ",\"csi_quality\":"@, nat_text(r.csi_quality as nat), ",\"sat_score\":"@),
        between(json_cal_resp_text(cal_resp_bytes(r), reals), ",\"sat_score\":"@, nat_text(r.sat_score as nat), ",\"dyn_range\":"@),
        between(json_cal_resp_text(cal_resp_bytes(r), reals), ",\"dyn_range\":"@, nat_text(r.dyn_range as nat), ",\"noise_floor\":"@),
        between(json_cal_resp_text(cal_resp_bytes(r), reals), ",\"noise_floor\":"@, reals[0], ",\"n_samples\":"@),
        between(json_cal_resp_text(cal_resp_bytes(r), reals), ",\"n_samples\":"@, nat_text(r.n_samples as nat), "}"@),
{
    let p = cal_resp_bytes(r);
    cal_resp_round_trip(r, Seq::empty());
    assert(p + Seq::empty() =~= p);
    let p0 = Seq::<char>::empty();
    let p1 = "{\"stage\":"@;
    let p2 = p1 + nat_text(cal_resp_at(p).stage as nat);
    let p3 = p2 + ",\"result\":"@;
    let p4 = p3 + nat_text(cal_resp_at(p).result as nat);
    let p5 = p4 + ",\"rssi\":"@;
    let p6 = p5 + int_text(cal_resp_at(p).rssi as int);
    let p7 = p6 + ",\"snr\":"@;
    let p8 = p7 + int_text(cal_resp_at(p).snr as int);
    let p9 = p8 + ",\"csi_quality\":"@;
    let p10 = p9 + nat_text(cal_resp_at(p).csi_quality as nat);
    let p11 = p10 + ",\"sat_score\":"@;
    let p12 = p11 + nat_text(cal_resp_at(p).sat_score as nat);
    let p13 = p12 + ",\"dyn_range\":"@;
    let p14 = p13 + nat_text(cal_resp_at(p).dyn_range as nat);
    let p15 = p14 + ",\"noise_floor\":"@;
    let p16 = p15 + reals[0];
    let p17 = p16 + ",\"n_samples\":"@;
    let p18 = p17 + nat_text(cal_resp_at(p).n_samples as nat);
    let p19 = p18 + "}"@;
    assert(p19 == json_cal_resp_text(cal_resp_bytes(r), reals));
    assert(p19.is_prefix_of(p19));
    shorter_front(p19, p18, "}"@);
    shorter_front(p19, p17, nat_text(cal_resp_at(p).n_samples as nat));
    shorter_front(p19, p16, ",\"n_samples\":"@);
    shorter_front(p19, p15, reals[0]);
    shorter_front(p19, p14, ",\"noise_floor\":"@);
    shorter_front(p19, p13, nat_text(cal_resp_at(p).dyn_range as nat));
    shorter_front(p19, p12, ",\"dyn_range\":"@);
    shorter_front(p19, p11, nat_text(cal_resp_at(p).sat_score as nat));
    shorter_front(p19, p10, ",\"sat_score\":"@);
    shorter_front(p19, p9, nat_text(cal_resp_at(p).csi_quality as nat));
    shorter_front(p19, p8, ",\"csi_quality\":"@);
    shorter_front(p19, p7, int_text(cal_resp_at(p).snr as int));
    shorter_front(p19, p6, ",\"snr\":"@);
    shorter_front(p19, p5, int_text(cal_resp_at(p).rssi as int));
    shorter_front(p19, p4, ",\"rssi\":"@);
    shorter_front(p19, p3, nat_text(cal_resp_at(p).result as nat));
    shorter_front(p19, p2, ",\"result\":"@);
    shorter_front(p19, p1, nat_text(cal_resp_at(p).stage as nat));
    assert(p0 + "{\"stage\":"@ =~= p1);
    assert((p0 + "{\"stage\":"@ + nat_text(r.stage as nat) + ",\"result\":"@).is_prefix_of(p19));
    assert((p2 + ",\"result\":"@ + nat_text(r.result as nat) + ",\"rssi\":"@).is_prefix_of(p19));
    assert((p4 + ",\"rssi\":"@ + int_text(r.rssi as int) + ",\"snr\":"@).is_prefix_of(p19));
    assert((p6 + ",\"snr\":"@ + int_text(r.snr as int) + ",\"csi_quality\":"@).is_prefix_of(p19));
    assert((p8 + ",\"csi_quality\":"@ + nat_text(r.csi_quality as nat) + ",\"sat_score\":"@).is_prefix_of(p19));
    assert((p10 + ",\"sat_score\":"@ + nat_text(r.sat_score as nat) + ",\"dyn_range\":"@).is_prefix_of(p19));
    assert((p12 + ",\"dyn_range\":"@ + nat_text(r.dyn_range as nat) + ",\"noise_floor\":"@).is_prefix_of(p19));
    assert((p14 + ",\"noise_floor\":"@ + reals[0] + ",\"n_samples\":"@).is_prefix_of(p19));
    assert((p16 + ",\"n_samples\":"@ + nat_text(r.n_samples as nat) + "}"@).is_prefix_of(p19));
}

/// The JSON object of a measurement shows each field under its name.
pub proof fn json_data_names_its_values(d: DataPayload)
    ensures
        between(json_data_text(data_bytes(d)), "{\"tx_power_db\":"@, nat_text(d.tx_power_db as nat), ",\"flags\":"@),
        between(json_data_text(data_bytes(d)), ",\"flags\":"@, nat_text(d.flags as nat), ",\"flags_cal\":"@),
        between(json_data_text(data_bytes(d)), ",\"flags_cal\":"@, nat_text(bit(d.flags, data_flags::CAL) as nat), ",\"flags_sync\":"@),
        between(json_data_text(data_bytes(d)), ",\"flags_sync\":"@, nat_text(bit(d.flags, data_flags::SYNC) as nat), "}"@),
{
    let p = data_bytes(d);
    let p0 = Seq::<char>::empty();
    let p1 = "{\"tx_power_db\":"@;
    let p2 = p1 + nat_text(p[0] as nat);
    let p3 = p2 + ",\"flags\":"@;
    let p4 = p3 + nat_text(p[1] as nat);
    let p5 = p4 + ",\"flags_cal\":"@;
    let p6 = p5 + nat_text(bit(p[1], data_flags::CAL) as nat);
    let p7 = p6 + ",\"flags_sync\":"@;
    let p8 = p7 + nat_text(bit(p[1], data_flags::SYNC) as nat);
    let p9 = p8 + "}"@;
    assert(p9 == json_data_text(data_bytes(d)));
    assert(p9.is_prefix_of(p9));
    shorter_front(p9, p8, "}"@);
    shorter_front(p9, p7, nat_text(bit(p[1], data_flags::SYNC) as nat));
    shorter_front(p9, p6, ",\"flags_sync\":"@);
    shorter_front(p9, p5, nat_text(bit(p[1], data_flags::CAL) as nat));
    shorter_front(p9, p4, ",\"flags_cal\":"@);
    shorter_front(p9, p3, nat_text(p[1] as nat));
    shorter_front(p9, p2, ",\"flags\":"@);
    shorter_front(p9, p1, nat_text(p[0] as nat));
    assert(p0 + "{\"tx_power_db\":"@ =~= p1);
    assert((p0 + "{\"tx_power_db\":"@ + nat_text(d.tx_power_db as nat) + ",\"flags\":"@).is_prefix_of(p9));
    assert((p2 + ",\"flags\":"@ + nat_text(d.flags as nat) + ",\"flags_cal\":"@).is_prefix_of(p9));
    assert((p4 + ",\"flags_cal\":"@ + nat_text(bit(d.flags, data_flags::CAL) as nat) + ",\"flags_sync\":"@).is_prefix_of(p9));
    assert((p6 + ",\"flags_sync\":"@ + nat_text(bit(d.flags, data_flags::SYNC) as nat) + "}"@).is_prefix_of(p9));
}

/// The JSON object of a status shows each field under its name.
pub proof fn json_status_names_its_values(p: Seq<u8>)
    ensures
        between(json_status_text(p), "{\"uptime_s\":"@, nat_text(status_at(p).uptime_s as nat), ",\"tx_seq\":"@),
        between(json_status_text(p), ",\"tx_seq\":"@, nat_text(status_at(p).tx_seq as nat), ",\"rx_packets\":"@),
        between(json_status_text(p), ",\"rx_packets\":"@, nat_text(status_at(p).rx_packets as nat), ",\"rx_drops\":"@),
        between(json_status_text(p), ",\"rx_drops\":"@, nat_text(status_at(p).rx_drops as nat), ",\"heap_free\":"@),
        between(json_status_text(p), ",\"heap_free\":"@, nat_text(status_at(p).heap_free as nat), ",\"wifi_connected\":"@),
        between(json_status_text(p), ",\"wifi_connected\":"@, nat_text(status_at(p).wifi_connected as nat), ",\"csi_enabled\":"@),
        between(json_status_text(p), ",\"csi_enabled\":"@, nat_text(status_at(p).csi_enabled as nat), ",\"paired_frames_per_s\":"@),
        between(json_status_text(p), ",\"paired_frames_per_s\":"@, nat_text(status_at(p).paired_frames_per_s as nat), "}"@),
{
    let p0 = Seq::<char>::empty();
    let p1 = "{\"uptime_s\":"@;
    let p2 = p1 + nat_text(status_at(p).uptime_s as nat);
    let p3 = p2 + ",\"tx_seq\":"@;
    let p4 = p3 + nat_text(status_at(p).tx_seq as nat);
    let p5 = p4 + ",\"rx_packets\":"@;
    let p6 = p5 + nat_text(status_at(p).rx_packets as nat);
    let p7 = p6 + ",\"rx_drops\":"@;
    let p8 = p7 + nat_text(status_at(p).rx_drops as nat);
    let p9 = p8 + ",\"heap_free\":"@;
    let p10 = p9 + nat_text(status_at(p).heap_free as nat);
    let p11 = p10 + ",\"wifi_connected\":"@;
    let p12 = p11 + nat_text(status_at(p).wifi_connected as nat);
    let p13 = p12 + ",\"csi_enabled\":"@;
    let p14 = p13 + nat_text(status_at(p).csi_enabled as nat);
    let p15 = p14 + ",\"paired_frames_per_s\":"@;
    let p16 = p15 + nat_text(status_at(p).paired_frames_per_s as nat);
    let p17 = p16 + "}"@;
    assert(p17 == json_status_text(p));
    assert(p17.is_prefix_of(p17));
    shorter_front(p17, p16, "}"@);
    shorter_front(p17, p15, nat_text(status_at(p).paired_frames_per_s as nat));
    shorter_front(p17, p14, ",\"paired_frames_per_s\":"@);
    shorter_front(p17, p13, nat_text(status_at(p).csi_enabled as nat));
    shorter_front(p17, p12, ",\"csi_enabled\":"@);
    shorter_front(p17, p11, nat_text(status_at(p).wifi_connected as nat));
    shorter_front(p17, p10, ",\"wifi_connected\":"@);
    shorter_front(p17, p9, nat_text(status_at(p).heap_free as nat));
    shorter_front(p17, p8, ",\"heap_free\":"@);
    shorter_front(p17, p7, nat_text(status_at(p).rx_drops as nat));
    shorter_front(p17, p6, ",\"rx_drops\":"@);
    shorter_front(p17, p5, nat_text(status_at(p).rx_packets as nat));
    shorter_front(p17, p4, ",\"rx_packets\":"@);
    shorter_front(p17, p3, nat_text(status_at(p).tx_seq as nat));
    shorter_front(p17, p2, ",\"tx_seq\":"@);
    shorter_front(p17, p1, nat_text(status_at(p).uptime_s as nat));
    assert(p0 + "{\"uptime_s\":"@ =~= p1);
    assert((p0 + "{\"uptime_s\":"@ + nat_text(status_at(p).uptime_s as nat) + ",\"tx_seq\":"@).is_prefix_of(p17));
    assert((p2 + ",\"tx_seq\":"@ + nat_text(status_at(p).tx_seq as nat) + ",\"rx_packets\":"@).is_prefix_of(p17));
    assert((p4 + ",\"rx_packets\":"@ + nat_text(status_at(p).rx_packets as nat) + ",\"rx_drops\":"@).is_prefix_of(p17));
    assert((p6 + ",\"rx_drops\":"@ + nat_text(status_at(p).rx_drops as nat) + ",\"heap_free\":"@).is_prefix_of(p17));
    assert((p8 + ",\"heap_free\":"@ + nat_text(status_at(p).heap_free as nat) + ",\"wifi_connected\":"@).is_prefix_of(p17));
    assert((p10 + ",\"wifi_connected\":"@ + nat_text(status_at(p).wifi_connected as nat) + ",\"csi_enabled\":"@).is_prefix_of(p17));
    assert((p12 + ",\"csi_enabled\":"@ + nat_text(status_at(p).csi_enabled as nat) + ",\"paired_frames_per_s\":"@).is_prefix_of(p17));
    assert((p14 + ",\"paired_frames_per_s\":"@ + nat_text(status_at(p).paired_frames_per_s as nat) + "}"@).is_prefix_of(p17));
}

/// The JSON object of a bad frame shows each header field under its name.
pub proof fn json_bad_names_its_values(offset: int, h: Header, reason: BadReason)
    ensures
        between(json_bad_text(offset, h, reason), "{\"bad\":true,\"offset\":"@, nat_text(offset as nat), ",\"kind\":"@),
        between(json_bad_text(offset, h, reason), ",\"kind\":"@, nat_text(h.kind as nat), ",\"kind_name\":\""@),
        between(json_bad_text(offset, h, reason), ",\"kind_name\":\""@, kind_text(h.kind), "\",\"src\":"@),
        between(json_bad_text(offset, h, reason), "\",\"src\":"@, nat_text(h.src_node as nat), ",\"src_name\":\""@),
        between(json_bad_text(offset, h, reason), ",\"src_name\":\""@, node_text(h.src_node), "\",\"dst\":"@),
        between(json_bad_text(offset, h, reason), "\",\"dst\":"@, nat_text(h.dst_node as nat), ",\"seq\":"@),
        between(json_bad_text(offset, h, reason), ",\"seq\":"@, nat_text(h.seq as nat), ",\"t_us\":"@),
        between(json_bad_text(offset, h, reason), ",\"t_us\":"@, nat_text(h.t_us as nat), ",\"claimed_payload_len\":"@),
        between(json_bad_text(offset, h, reason), ",\"claimed_payload_len\":"@, nat_text(h.payload_len as nat), ",\"crc16\":"@),
        between(json_bad_text(offset, h, reason), ",\"crc16\":"@, nat_text(h.crc16 as nat), ",\"reason\":\""@),
        between(json_bad_text(offset, h, reason), ",\"reason\":\""@, reason_text(reason), "\"}"@),
{
    let p0 = Seq::<char>::empty();
    let p1 = "{\"bad\":true,\"offset\":"@;
    let p2 = p1 + nat_text(offset as nat);
    let p3 = p2 + ",\"kind\":"@;
    let p4 = p3 + nat_text(h.kind as nat);
    let p5 = p4 + ",\"kind_name\":\""@;
    let p6 = p5 + kind_text(h.kind);
    let p7 = p6 + "\",\"src\":"@;
    let p8 = p7 + nat_text(h.src_node as nat);
    let p9 = p8 + ",\"src_name\":\""@;
    let p10 = p9 + node_text(h.src_node);
    let p11 = p10 + "\",\"dst\":"@;
    let p12 = p11 + nat_text(h.dst_node as nat);
    let p13 = p12 + ",\"seq\":"@;
    let p14 = p13 + nat_text(h.seq as nat);
    let p15 = p14 + ",\"t_us\":"@;
    let p16 = p15 + nat_text(h.t_us as nat);
    let p17 = p16 + ",\"claimed_payload_len\":"@;
    let p18 = p17 + nat_text(h.payload_len as nat);
    let p19 = p18 + ",\"crc16\":"@;
    let p20 = p19 + nat_text(h.crc16 as nat);
    let p21 = p20 + ",\"reason\":\""@;
    let p22 = p21 + reason_text(reason);
    let p23 = p22 + "\"}"@;
    assert(p23 == json_bad_text(offset, h, reason));
    assert(p23.is_prefix_of(p23));
    shorter_front(p23, p22, "\"}"@);
    shorter_front(p23, p21, reason_text(reason));
    shorter_front(p23, p20, ",\"reason\":\""@);
    shorter_front(p23, p19, nat_text(h.crc16 as nat));
    shorter_front(p23, p18, ",\"crc16\":"@);
    shorter_front(p23, p17, nat_text(h.payload_len as nat));
    shorter_front(p23, p16, ",\"claimed_payload_len\":"@);
    shorter_front(p23, p15, nat_text(h.t_us as nat));
    shorter_front(p23, p14, ",\"t_us\":"@);
    shorter_front(p23, p13, nat_text(h.seq as nat));
    shorter_front(p23, p12, ",\"seq\":"@);
    shorter_front(p23, p11, nat_text(h.dst_node as nat));
    shorter_front(p23, p10, "\",\"dst\":"@);
    shorter_front(p23, p9, node_text(h.src_node));
    shorter_front(p23, p8, ",\"src_name\":\""@);
    shorter_front(p23, p7, nat_text(h.src_node as nat));
    shorter_front(p23, p6, "\",\"src\":"@);
    shorter_front(p23, p5, kind_text(h.kind));
    shorter_front(p23, p4, ",\"kind_name\":\""@);
    shorter_front(p23, p3, nat_text(h.kind as nat));
    shorter_front(p23, p2, ",\"kind\":"@);
    shorter_front(p23, p1, nat_text(offset as nat));
    assert(p0 + "{\"bad\":true,\"offset\":"@ =~= p1);
    assert((p0 + "{\"bad\":true,\"offset\":"@ + nat_text(offset as nat) + ",\"kind\":"@).is_prefix_of(p23));
    assert((p2 + ",\"kind\":"@ + nat_text(h.kind as nat) + ",\"kind_name\":\""@).is_prefix_of(p23));
    assert((p4 + ",\"kind_name\":\""@ + kind_text(h.kind) + "\",\"src\":"@).is_prefix_of(p23));
    assert((p6 + "\",\"src\":"@ + nat_text(h.src_node as nat) + ",\"src_name\":\""@).is_prefix_of(p23));
    assert((p8 + ",\"src_name\":\""@ + node_text(h.src_node) + "\",\"dst\":"@).is_prefix_of(p23));
    assert((p10 + "\",\"dst\":"@ + nat_text(h.dst_node as nat) + ",\"seq\":"@).is_prefix_of(p23));
    assert((p12 + ",\"seq\":"@ + nat_text(h.seq as nat) + ",\"t_us\":"@).is_prefix_of(p23));
    assert((p14 + ",\"t_us\":"@ + nat_text(h.t_us as nat) + ",\"claimed_payload_len\":"@).is_prefix_of(p23));
    assert((p16 + ",\"claimed_payload_len\":"@ + nat_text(h.payload_len as nat) + ",\"crc16\":"@).is_prefix_of(p23));
    assert((p18 + ",\"crc16\":"@ + nat_text(h.crc16 as nat) + ",\"reason\":\""@).is_prefix_of(p23));
    assert((p20 + ",\"reason\":\""@ + reason_text(reason) + "\"}"@).is_prefix_of(p23));
}

/// The JSON object of a frame shows each header field under its name.
pub proof fn json_frame_names_its_values(idx: u64, offset: int, h: Header, p: Seq<u8>, reals: Seq<Seq<char>>)
    ensures
        between(json_frame_text(idx, offset, h, p, reals), "{\"frame\":"@, nat_text(idx as nat), ",\"offset\":"@),
        between(json_frame_text(idx, offset, h, p, reals), ",\"offset\":"@, nat_text(offset as nat), ",\"magic\":\"0x"@),
        between(json_frame_text(idx, offset, h, p, reals), ",\"magic\":\"0x"@, hex_text(h.magic as nat, 8), "\",\"version\":"@),
        between(json_frame_text(idx, offset, h, p, reals), "\",\"version\":"@, nat_text(h.version as nat), ",\"kind\":"@),
        between(json_frame_text(idx, offset, h, p, reals), ",\"kind\":"@, nat_text(h.kind as nat), ",\"kind_name\":\""@),
        between(json_frame_text(idx, offset, h, p, reals), ",\"kind_name\":\""@, kind_text(h.kind), "\",\"src\":"@),
        between(json_frame_text(idx, offset, h, p, reals), "\",\"src\":"@, nat_text(h.src_node as nat), ",\"src_name\":\""@),
        between(json_frame_text(idx, offset, h, p, reals), ",\"src_name\":\""@, node_text(h.src_node), "\",\"dst\":"@),
        between(json_frame_text(idx, offset, h, p, reals), "\",\"dst\":"@, nat_text(h.dst_node as nat), ",\"dst_name\":\""@),
        between(json_frame_text(idx, offset, h, p, reals), ",\"dst_name\":\""@, node_text(h.dst_node), "\",\"seq\":"@),
        between(json_frame_text(idx, offset, h, p, reals), "\",\"seq\":"@, nat_text(h.seq as nat), ",\"t_us\":"@),
        between(json_frame_text(idx, offset, h, p, reals), ",\"t_us\":"@, nat_text(h.t_us as nat), ",\"payload_len\":"@),
        between(json_frame_text(idx, offset, h, p, reals), ",\"payload_len\":"@, nat_text(h.payload_len as nat), ",\"crc16\":"@),
        between(json_frame_text(idx, offset, h, p, reals), ",\"crc16\":"@, nat_text(h.crc16 as nat), ",\"crc_ok\":true,\"payload\":"@),
        between(json_frame_text(idx, offset, h, p, reals), ",\"crc_ok\":true,\"payload\":"@, json_payload_text(h.kind, p, reals), "}"@),
{
    let p0 = Seq::<char>::empty();
    let p1 = "{\"frame\":"@;
    let p2 = p1 + nat_text(idx as nat);
    let p3 = p2 + ",\"offset\":"@;
    let p4 = p3 + nat_text(offset as nat);
    let p5 = p4 + ",\"magic\":\"0x"@;
    let p6 = p5 + hex_text(h.magic as nat, 8);
    let p7 = p6 + "\",\"version\":"@;
    let p8 = p7 + nat_text(h.version as nat);
    let p9 = p8 + ",\"kind\":"@;
    let p10 = p9 + nat_text(h.kind as nat);
    let p11 = p10 + ",\"kind_name\":\""@;
    let p12 = p11 + kind_text(h.kind);
    let p13 = p12 + "\",\"src\":"@;
    let p14 = p13 + nat_text(h.src_node as nat);
    let p15 = p14 + ",\"src_name\":\""@;
    let p16 = p15 + node_text(h.src_node);
    let p17 = p16 + "\",\"dst\":"@;
    let p18 = p17 + nat_text(h.dst_node as nat);
    let p19 = p18 + ",\"dst_name\":\""@;
    let p20 = p19 + node_text(h.dst_node);
    let p21 = p20 + "\",\"seq\":"@;
    let p22 = p21 + nat_text(h.seq as nat);
    let p23 = p22 + ",\"t_us\":"@;
    let p24 = p23 + nat_text(h.t_us as nat);
    let p25 = p24 + ",\"payload_len\":"@;
    let p26 = p25 + nat_text(h.payload_len as nat);
    let p27 = p26 + ",\"crc16\":"@;
    let p28 = p27 + nat_text(h.crc16 as nat);
    let p29 = p28 + ",\"crc_ok\":true,\"payload\":"@;
    let p30 = p29 + json_payload_text(h.kind, p, reals);
    let p31 = p30 + "}"@;
    assert(p31 == json_frame_text(idx, offset, h, p, reals));
    assert(p31.is_prefix_of(p31));
    shorter_front(p31, p30, "}"@);
    shorter_front(p31, p29, json_payload_text(h.kind, p, reals));
    shorter_front(p31, p28, ",\"crc_ok\":true,\"payload\":"@);
    shorter_front(p31, p27, nat_text(h.crc16 as nat));
    shorter_front(p31, p26, ",\"crc16\":"@);
    shorter_front(p31, p25, nat_text(h.payload_len as nat));
    shorter_front(p31, p24, ",\"payload_len\":"@);
    shorter_front(p31, p23, nat_text(h.t_us as nat));
    shorter_front(p31, p22, ",\"t_us\":"@);
    shorter_front(p31, p21, nat_text(h.seq as nat));
    shorter_front(p31, p20, "\",\"seq\":"@);
    shorter_front(p31, p19, node_text(h.dst_node));
    shorter_front(p31, p18, ",\"dst_name\":\""@);
    shorter_front(p31, p17, nat_text(h.dst_node as nat));
    shorter_front(p31, p16, "\",\"dst\":"@);
    shorter_front(p31, p15, node_text(h.src_node));
    shorter_front(p31, p14, ",\"src_name\":\""@);
    shorter_front(p31, p13, nat_text(h.src_node as nat));
    shorter_front(p31, p12, "\",\"src\":"@);
    shorter_front(p31, p11, kind_text(h.kind));
    shorter_front(p31, p10, ",\"kind_name\":\""@);
    shorter_front(p31, p9, nat_text(h.kind as nat));
    shorter_front(p31, p8, ",\"kind\":"@);
    shorter_front(p31, p7, nat_text(h.version as nat));
    shorter_front(p31, p6, "\",\"version\":"@);
    shorter_front(p31, p5, hex_text(h.magic as nat, 8));
    shorter_front(p31, p4, ",\"magic\":\"0x"@);
    shorter_front(p31, p3, nat_text(offset as nat));
    shorter_front(p31, p2, ",\"offset\":"@);
    shorter_front(p31, p1, nat_text(idx as nat));
    assert(p0 + "{\"frame\":"@ =~= p1);
    assert((p0 + "{\"frame\":"@ + nat_text(idx as nat) + ",\"offset\":"@).is_prefix_of(p31));
    assert((p2 + ",\"offset\":"@ + nat_text(offset as nat) + ",\"magic\":\"0x"@).is_prefix_of(p31));
    assert((p4 + ",\"magic\":\"0x"@ + hex_text(h.magic as nat, 8) + "\",\"version\":"@).is_prefix_of(p31));
    assert((p6 + "\",\"version\":"@ + nat_text(h.version as nat) + ",\"kind\":"@).is_prefix_of(p31));
    assert((p8 + ",\"kind\":"@ + nat_text(h.kind as nat) + ",\"kind_name\":\""@).is_prefix_of(p31));
    assert((p10 + ",\"kind_name\":\""@ + kind_text(h.kind) + "\",\"src\":"@).is_prefix_of(p31));
    assert((p12 + "\",\"src\":"@ + nat_text(h.src_node as nat) + ",\"src_name\":\""@).is_prefix_of(p31));
    assert((p14 + ",\"src_name\":\""@ + node_text(h.src_node) + "\",\"dst\":"@).is_prefix_of(p31));
    assert((p16 + "\",\"dst\":"@ + nat_text(h.dst_node as nat) + ",\"dst_name\":\""@).is_prefix_of(p31));
    assert((p18 + ",\"dst_name\":\""@ + node_text(h.dst_node) + "\",\"seq\":"@).is_prefix_of(p31));
    assert((p20 + "\",\"seq\":"@ + nat_text(h.seq as nat) + ",\"t_us\":"@).is_prefix_of(p31));
    assert((p22 + ",\"t_us\":"@ + nat_text(h.t_us as nat) + ",\"payload_len\":"@).is_prefix_of(p31));
    assert((p24 + ",\"payload_len\":"@ + nat_text(h.payload_len as nat) + ",\"crc16\":"@).is_prefix_of(p31));
    assert((p26 + ",\"crc16\":"@ + nat_text(h.crc16 as nat) + ",\"crc_ok\":true,\"payload\":"@).is_prefix_of(p31));
    assert((p28 + ",\"crc_ok\":true,\"payload\":"@ + json_payload_text(h.kind, p, reals) + "}"@).is_prefix_of(p31));
}

/// The text of a report shows each field under its name.
pub proof fn dump_feature_names_its_values(r: FeatureReport, reals: Seq<Seq<char>>)
    ensures
        between(dump_feature_text(feature_report_bytes(r), reals), "  payload: FeatureReport seq="@, nat_text(r.seq as nat), " n_frames="@),
        between(dump_feature_text(feature_report_bytes(r), reals), " n_frames="@, nat_text(r.n_frames as nat), " n_missing="@),
        between(dump_feature_text(feature_report_bytes(r), reals), " n_missing="@, nat_text(r.n_missing as nat), " rssi="@),
        between(dump_feature_text(feature_report_bytes(r), reals), " rssi="@, int_text(r.rssi as int), " dBm snr="@),
        between(dump_feature_text(feature_report_bytes(r), reals), " dBm snr="@, int_text(r.snr as int), " dB csi_quality="@),
        between(dump_feature_text(feature_report_bytes(r), reals), " dB csi_quality="@, nat_text(r.csi_quality as nat), " sat_score="@),
        between(dump_feature_text(feature_report_bytes(r), reals), " sat_score="@, nat_text(r.sat_score as nat), " dyn_range="@),
        between(dump_feature_text(feature_report_bytes(r), reals), " dyn_range="@, nat_text(r.dyn_range as nat), " flags=0x"@),
        between(dump_feature_text(feature_report_bytes(r), reals), " flags=0x"@, hex_text(r.flags as nat, 2), report_flag_text(r.flags)),
        between(dump_feature_text(feature_report_bytes(r), reals), hex_text(r.flags as nat, 2), report_flag_text(r.flags), "\n    amp_mean="@),
        between(dump_feature_text(feature_report_bytes(r), reals), "\n    amp_mean="@, reals[0], " amp_std="@),
        between(dump_feature_text(feature_report_bytes(r), reals), " amp_std="@, reals[1], " motion_energy="@),
        between(dump_feature_text(feature_report_bytes(r), reals), " motion_energy="@, reals[2], " spectral_entropy="@),
        between(dump_feature_text(feature_report_bytes(r), reals), " spectral_entropy="@, reals[3], " dominant_freq_hz="@),
        between(dump_feature_text(feature_report_bytes(r), reals), " dominant_freq_hz="@, reals[4], " phase_dispersion="@),
        between(dump_feature_text(feature_report_bytes(r), reals), " phase_dispersion="@, reals[5], " baseline_dev="@),
        between(dump_feature_text(feature_report_bytes(r), reals), " baseline_dev="@, reals[6], "\n    pca_scores="@),
        at_the_end(dump_feature_text(feature_report_bytes(r), reals), "\n    pca_scores="@, list_text(reals.subrange(7, 15), ", "@)),
{
    let p = feature_report_bytes(r);
    feature_report_layout(r);
    let p0 = Seq::<char>::empty();
    let p1 = "  payload: FeatureReport seq="@;
    let p2 = p1 + nat_text(u32_at(p, 0) as nat);
    let p3 = p2 + " n_frames="@;
    let p4 = p3 + nat_text(u32_at(p, 4) as nat);
    let p5 = p4 + " n_missing="@;
    let p6 = p5 + nat_text(u32_at(p, 8) as nat);
    let p7 = p6 + " rssi="@;
    let p8 = p7 + int_text(i16_at(p, 12) as int);
    let p9 = p8 + " dBm snr="@;
    let p10 = p9 + int_text(i8_of_u8(p[14]) as int);
    let p11 = p10 + " dB csi_quality="@;
    let p12 = p11 + nat_text(p[15] as nat);
    let p13 = p12 + " sat_score="@;
    let p14 = p13 + nat_text(p[16] as nat);
    let p15 = p14 + " dyn_range="@;
    let p16 = p15 + nat_text(p[17] as nat);
    let p17 = p16 + " flags=0x"@;
    let p18 = p17 + hex_text(p[18] as nat, 2);
    let p19 = p18 + report_flag_text(p[18]);
    let p20 = p19 + "\n    amp_mean="@;
    let p21 = p20 + reals[0];
    let p22 = p21 + " amp_std="@;
    let p23 = p22 + reals[1];
    let p24 = p23 + " motion_energy="@;
    let p25 = p24 + reals[2];
    let p26 = p25 + " spectral_entropy="@;
    let p27 = p26 + reals[3];
    let p28 = p27 + " dominant_freq_hz="@;
    let p29 = p28 + reals[4];
    let p30 = p29 + " phase_dispersion="@;
    let p31 = p30 + reals[5];
    let p32 = p31 + " baseline_dev="@;
    let p33 = p32 + reals[6];
    let p34 = p33 + "\n    pca_scores="@;
    let p35 = p34 + list_text(reals.subrange(7, 15), ", "@);
    assert(p35 == dump_feature_text(feature_report_bytes(r), reals));
    assert(p35.is_prefix_of(p35));
    shorter_front(p35, p34, list_text(reals.subrange(7, 15), ", "@));
    shorter_front(p35, p33, "\n    pca_scores="@);
    shorter_front(p35, p32, reals[6]);
    shorter_front(p35, p31, " baseline_dev="@);
    shorter_front(p35, p30, reals[5]);
    shorter_front(p35, p29, " phase_dispersion="@);
    shorter_front(p35, p28, reals[4]);
    shorter_front(p35, p27, " dominant_freq_hz="@);
    shorter_front(p35, p26, reals[3]);
    shorter_front(p35, p25, " spectral_entropy="@);
    shorter_front(p35, p24, reals[2]);
    shorter_front(p35, p23, " motion_energy="@);
    shorter_front(p35, p22, reals[1]);
    shorter_front(p35, p21, " amp_std="@);
    shorter_front(p35, p20, reals[0]);
    shorter_front(p35, p19, "\n    amp_mean="@);
    shorter_front(p35, p18, report_flag_text(p[18]));
    shorter_front(p35, p17, hex_text(p[18] as nat, 2));
    shorter_front(p35, p16, " flags=0x"@);
    shorter_front(p35, p15, nat_text(p[17] as nat));
    shorter_front(p35, p14, " dyn_range="@);
    shorter_front(p35, p13, nat_text(p[16] as nat));
    shorter_front(p35, p12, " sat_score="@);
    shorter_front(p35, p11, nat_text(p[15] as nat));
    shorter_front(p35, p10, " dB csi_quality="@);
    shorter_front(p35, p9, int_text(i8_of_u8(p[14]) as int));
    shorter_front(p35, p8, " dBm snr="@);
    shorter_front(p35, p7, int_text(i16_at(p, 12) as int));
    shorter_front(p35, p6, " rssi="@);
    shorter_front(p35, p5, nat_text(u32_at(p, 8) as nat));
    shorter_front(p35, p4, " n_missing="@);
    shorter_front(p35, p3, nat_text(u32_at(p, 4) as nat));
    shorter_front(p35, p2, " n_frames="@);
    shorter_front(p35, p1, nat_text(u32_at(p, 0) as nat));
    assert(p0 + "  payload: FeatureReport seq="@ =~= p1);
    assert((p0 + "  payload: FeatureReport seq="@ + nat_text(r.seq as nat) + " n_frames="@).is_prefix_of(p35));
    assert((p2 + " n_frames="@ + nat_text(r.n_frames as nat) + " n_missing="@).is_prefix_of(p35));
    assert((p4 + " n_missing="@ + nat_text(r.n_missing as nat) + " rssi="@).is_prefix_of(p35));
    assert((p6 + " rssi="@ + int_text(r.rssi as int) + " dBm snr="@).is_prefix_of(p35));
    assert((p8 + " dBm snr="@ + int_text(r.snr as int) + " dB csi_quality="@).is_prefix_of(p35));
    assert((p10 + " dB csi_quality="@ + nat_text(r.csi_quality as nat) + " sat_score="@).is_prefix_of(p35));
    assert((p12 + " sat_score="@ + nat_text(r.sat_score as nat) + " dyn_range="@).is_prefix_of(p35));
    assert((p14 + " dyn_range="@ + nat_text(r.dyn_range as nat) + " flags=0x"@).is_prefix_of(p35));
    assert((p16 + " flags=0x"@ + hex_text(r.flags as nat, 2) + report_flag_text(r.flags)).is_prefix_of(p35));
    assert((p17 + hex_text(r.flags as nat, 2) + report_flag_text(r.flags) + "\n    amp_mean="@).is_prefix_of(p35));
    assert((p19 + "\n    amp_mean="@ + reals[0] + " amp_std="@).is_prefix_of(p35));
    assert((p21 + " amp_std="@ + reals[1] + " motion_energy="@).is_prefix_of(p35));
    assert((p23 + " motion_energy="@ + reals[2] + " spectral_entropy="@).is_prefix_of(p35));
    assert((p25 + " spectral_entropy="@ + reals[3] + " dominant_freq_hz="@).is_prefix_of(p35));
    assert((p27 + " dominant_freq_hz="@ + reals[4] + " phase_dispersion="@).is_prefix_of(p35));
    assert((p29 + " phase_dispersion="@ + reals[5] + " baseline_dev="@).is_prefix_of(p35));
    assert((p31 + " baseline_dev="@ + reals[6] + "\n    pca_scores="@).is_prefix_of(p35));
    assert((p33 + "\n    pca_scores="@ + list_text(reals.subrange(7, 15), ", "@)) == p35);
}

/// The text of a snapshot shows each field under its name.
pub proof fn dump_snapshot_names_its_values(s: CsiSnapshot, reals: Seq<Seq<char>>)
    ensures
        between(dump_snapshot_text(csi_snapshot_bytes(s), reals), "  payload: CsiSnapshot seq="@, nat_text(s.seq as nat), " rssi="@),
        between(dump_snapshot_text(csi_snapshot_bytes(s), reals), " rssi="@, int_text(s.rssi as int), " dBm snr="@),
        between(dump_snapshot_text(csi_snapshot_bytes(s), reals), " dBm snr="@, int_text(s.snr as int), " dB csi_quality="@),
        between(dump_snapshot_text(csi_snapshot_bytes(s), reals), " dB csi_quality="@, nat_text(s.csi_quality as nat), " noise_floor="@),
        between(dump_snapshot_text(csi_snapshot_bytes(s), reals), " noise_floor="@, reals[0], " flags=0x"@),
        between(dump_snapshot_text(csi_snapshot_bytes(s), reals), " flags=0x"@, hex_text(s.flags as nat, 2), " n_sub="@),
        between(dump_snapshot_text(csi_snapshot_bytes(s), reals), " n_sub="@, nat_text(s.n_sub as nat), "\n    amp_norm mean="@),
        between(dump_snapshot_text(csi_snapshot_bytes(s), reals), "\n    amp_norm mean="@, reals[1], " first8="@),
        between(dump_snapshot_text(csi_snapshot_bytes(s), reals), " first8="@, list_text(u8_texts(s.amp_norm@.take(8)), ", "@), "\n    iq mean|v|="@),
        between(dump_snapshot_text(csi_snapshot_bytes(s), reals), "\n    iq mean|v|="@, reals[2], " first4pairs="@),
        between(dump_snapshot_text(csi_snapshot_bytes(s), reals), " first4pairs="@, list_text(i16_texts(s.iq@.take(8)), ", "@), "\n    spec mean="@),
        between(dump_snapshot_text(csi_snapshot_bytes(s), reals), "\n    spec mean="@, reals[3], " first8="@),
        at_the_end(dump_snapshot_text(csi_snapshot_bytes(s), reals), " first8="@, list_text(u8_texts(s.spec@.take(8)), ", "@)),
{
    let p = csi_snapshot_bytes(s);
    csi_snapshot_layout(s);
    csi_snapshot_round_trip(s, Seq::empty());
    assert(p.subrange(239, 247) =~= p.subrange(239, 295).take(8));
    assert(p.subrange(295, 303) =~= p.subrange(295, 359).take(8));
    assert(i16s_at(p, 15, 8) =~= s.iq@.take(8));
    let p0 = Seq::<char>::empty();
    let p1 = "  payload: CsiSnapshot seq="@;
    let p2 = p1 + nat_text(u32_at(p, 0) as nat);
    let p3 = p2 + " rssi="@;
    let p4 = p3 + int_text(i16_at(p, 4) as int);
    let p5 = p4 + " dBm snr="@;
    let p6 = p5 + int_text(i8_of_u8(p[6]) as int);
    let p7 = p6 + " dB csi_quality="@;
    let p8 = p7 + nat_text(p[7] as nat);
    let p9 = p8 + " noise_floor="@;
    let p10 = p9 + reals[0];
    let p11 = p10 + " flags=0x"@;
    let p12 = p11 + hex_text(p[12] as nat, 2);
    let p13 = p12 + " n_sub="@;
    let p14 = p13 + nat_text(p[13] as nat);
    let p15 = p14 + "\n    amp_norm mean="@;
    let p16 = p15 + reals[1];
    let p17 = p16 + " first8="@;
    let p18 = p17 + list_text(u8_texts(p.subrange(239, 247)), ", "@);
    let p19 = p18 + "\n    iq mean|v|="@;
    let p20 = p19 + reals[2];
    let p21 = p20 + " first4pairs="@;
    let p22 = p21 + list_text(i16_texts(i16s_at(p, 15, 8)), ", "@);
    let p23 = p22 + "\n    spec mean="@;
    let p24 = p23 + reals[3];
    let p25 = p24 + " first8="@;
    let p26 = p25 + list_text(u8_texts(p.subrange(295, 303)), ", "@);
    assert(p26 == dump_snapshot_text(csi_snapshot_bytes(s), reals));
    assert(p26.is_prefix_of(p26));
    shorter_front(p26, p25, list_text(u8_texts(p.subrange(295, 303)), ", "@));
    shorter_front(p26, p24, " first8="@);
    shorter_front(p26, p23, reals[3]);
    shorter_front(p26, p22, "\n    spec mean="@);
    shorter_front(p26, p21, list_text(i16_texts(i16s_at(p, 15, 8)), ", "@));
    shorter_front(p26, p20, " first4pairs="@);
    shorter_front(p26, p19, reals[2]);
    shorter_front(p26, p18, "\n    iq mean|v|="@);
    shorter_front(p26, p17, list_text(u8_texts(p.subrange(239, 247)), ", "@));
    shorter_front(p26, p16, " first8="@);
    shorter_front(p26, p15, reals[1]);
    shorter_front(p26, p14, "\n    amp_norm mean="@);
    shorter_front(p26, p13, nat_text(p[13] as nat));
    shorter_front(p26, p12, " n_sub="@);
    shorter_front(p26, p11, hex_text(p[12] as nat, 2));
    shorter_front(p26, p10, " flags=0x"@);
    shorter_front(p26, p9, reals[0]);
    shorter_front(p26, p8, " noise_floor="@);
    shorter_front(p26, p7, nat_text(p[7] as nat));
    shorter_front(p26, p6, " dB csi_quality="@);
    shorter_front(p26, p5, int_text(i8_of_u8(p[6]) as int));
    shorter_front(p26, p4, " dBm snr="@);
    shorter_front(p26, p3, int_text(i16_at(p, 4) as int));
    shorter_front(p26, p2, " rssi="@);
    shorter_front(p26, p1, nat_text(u32_at(p, 0) as nat));
    assert(p0 + "  payload: CsiSnapshot seq="@ =~= p1);
    assert((p0 + "  payload: CsiSnapshot seq="@ + nat_text(s.seq as nat) + " rssi="@).is_prefix_of(p26));
    assert((p2 + " rssi="@ + int_text(s.rssi as int) + " dBm snr="@).is_prefix_of(p26));
    assert((p4 + " dBm snr="@ + int_text(s.snr as int) + " dB csi_quality="@).is_prefix_of(p26));
    assert((p6 + " dB csi_quality="@ + nat_text(s.csi_quality as nat) + " noise_floor="@).is_prefix_of(p26));
    assert((p8 + " noise_floor="@ + reals[0] + " flags=0x"@).is_prefix_of(p26));
    assert((p10 + " flags=0x"@ + hex_text(s.flags as nat, 2) + " n_sub="@).is_prefix_of(p26));
    assert((p12 + " n_sub="@ + nat_text(s.n_sub as nat) + "\n    amp_norm mean="@).is_prefix_of(p26));
    assert((p14 + "\n    amp_norm mean="@ + reals[1] + " first8="@).is_prefix_of(p26));
    assert((p16 + " first8="@ + list_text(u8_texts(s.amp_norm@.take(8)), ", "@) + "\n    iq mean|v|="@).is_prefix_of(p26));
    assert((p18 + "\n    iq mean|v|="@ + reals[2] + " first4pairs="@).is_prefix_of(p26));
    assert((p20 + " first4pairs="@ + list_text(i16_texts(s.iq@.take(8)), ", "@) + "\n    spec mean="@).is_prefix_of(p26));
    assert((p22 + "\n    spec mean="@ + reals[3] + " first8="@).is_prefix_of(p26));
    assert((p24 + " first8="@ + list_text(u8_texts(s.spec@.take(8)), ", "@)) == p26);
}

/// The text of a command shows each field under its name.
pub proof fn dump_cal_cmd_names_its_values(c: CalCmd)
    ensures
        between(dump_cal_cmd_text(cal_cmd_bytes(c)), "  payload: CalCmd stage="@, nat_text(c.stage as nat), " action="@),
        between(dump_cal_cmd_text(cal_cmd_bytes(c)), " action="@, nat_text(c.action as nat), " collect_ms="@),
        between(dump_cal_cmd_text(cal_cmd_bytes(c)), " collect_ms="@, nat_text(c.collect_ms as nat), " tx_power_db="@),
        at_the_end(dump_cal_cmd_text(cal_cmd_bytes(c)), " tx_power_db="@, int_text(c.tx_power_db as int)),
{
    let p = cal_cmd_bytes(c);
    cal_cmd_round_trip(c, Seq::empty());
    assert(p + Seq::empty() =~= p);
    let p0 = Seq::<char>::empty();
    let p1 = "  payload: CalCmd stage="@;
    let p2 = p1 + nat_text(cal_cmd_at(p).stage as nat);
    let p3 = p2 + " action="@;
    let p4 = p3 + nat_text(cal_cmd_at(p).action as nat);
    let p5 = p4 + " collect_ms="@;
    let p6 = p5 + nat_text(cal_cmd_at(p).collect_ms as nat);
    let p7 = p6 + " tx_power_db="@;
    let p8 = p7 + int_text(cal_cmd_at(p).tx_power_db as int);
    assert(p8 == dump_cal_cmd_text(cal_cmd_bytes(c)));
    assert(p8.is_prefix_of(p8));
    shorter_front(p8, p7, int_text(cal_cmd_at(p).tx_power_db as int));
    shorter_front(p8, p6, " tx_power_db="@);
    shorter_front(p8, p5, nat_text(cal_cmd_at(p).collect_ms as nat));
    shorter_front(p8, p4, " collect_ms="@);
    shorter_front(p8, p3, nat_text(cal_cmd_at(p).action as nat));
    shorter_front(p8, p2, " action="@);
    shorter_front(p8, p1, nat_text(cal_cmd_at(p).stage as nat));
    assert(p0 + "  payload: CalCmd stage="@ =~= p1);
    assert((p0 + "  payload: CalCmd stage="@ + nat_text(c.stage as nat) + " action="@).is_prefix_of(p8));
    assert((p2 + " action="@ + nat_text(c.action as nat) + " collect_ms="@).is_prefix_of(p8));
    assert((p4 + " collect_ms="@ + nat_text(c.collect_ms as nat) + " tx_power_db="@).is_prefix_of(p8));
    assert((p6 + " tx_power_db="@ + int_text(c.tx_power_db as int)) == p8);
}

/// The text of a response shows each field under its name.
pub proof fn dump_cal_resp_names_its_values(r: CalResp, reals: Seq<Seq<char>>)
    ensures
        between(dump_cal_resp_text(cal_resp_bytes(r), reals), "  payload: CalResp stage="@, nat_text(r.stage as nat), " result="@),
        between(dump_cal_resp_text(cal_resp_bytes(r), reals), " result="@, nat_text(r.result as nat), " rssi="@),
        between(dump_cal_resp_text(cal_resp_bytes(r), reals), " rssi="@, int_text(r.rssi as int), " dBm snr="@),
        between(dump_cal_resp_text(cal_resp_bytes(r), reals), " dBm snr="@, int_text(r.snr as int), " dB csi_quality="@),
        between(dump_cal_resp_text(cal_resp_bytes(r), reals), " dB csi_quality="@, nat_text(r.csi_quality as nat), " sat_score="@),
        between(dump_cal_resp_text(cal_resp_bytes(r), reals), " sat_score="@, nat_text(r.sat_score as nat), " dyn_range="@),
        between(dump_cal_resp_text(cal_resp_bytes(r), reals), " dyn_range="@, nat_text(r.dyn_range as nat), " noise_floor="@),
        between(dump_cal_resp_text(cal_resp_bytes(r), reals), " noise_floor="@, reals[0], " n_samples="@),
        at_the_end(dump_cal_resp_text(cal_resp_bytes(r), reals), " n_samples="@, nat_text(r.n_samples as nat)),
{
    let p = cal_resp_bytes(r);
    cal_resp_round_trip(r, Seq::empty());
    assert(p + Seq::empty() =~= p);
    let p0 = Seq::<char>::empty();
    let p1 = "  payload: CalResp stage="@;
    let p2 = p1 + nat_text(cal_resp_at(p).stage as nat);
    let p3 = p2 + " result="@;
    let p4 = p3 + nat_text(cal_resp_at(p).result as nat);
    let p5 = p4 + " rssi="@;
    let p6 = p5 + int_text(cal_resp_at(p).rssi as int);
    let p7 = p6 + " dBm snr="@;
    let p8 = p7 + int_text(cal_resp_at(p).snr as int);
    let p9 = p8 + " dB csi_quality="@;
    let p10 = p9 + nat_text(cal_resp_at(p).csi_quality as nat);
    let p11 = p10 + " sat_score="@;
    let p12 = p11 + nat_text(cal_resp_at(p).sat_score as nat);
    let p13 = p12 + " dyn_range="@;
    let p14 = p13 + nat_text(cal_resp_at(p).dyn_range as nat);
    let p15 = p14 + " noise_floor="@;
    let p16 = p15 + reals[0];
    let p17 = p16 + " n_samples="@;
    let p18 = p17 + nat_text(cal_resp_at(p).n_samples as nat);
    assert(p18 == dump_cal_resp_text(cal_resp_bytes(r), reals));
    assert(p18.is_prefix_of(p18));
    shorter_front(p18, p17, nat_text(cal_resp_at(p).n_samples as nat));
    shorter_front(p18, p16, " n_samples="@);
    shorter_front(p18, p15, reals[0]);
    shorter_front(p18, p14, " noise_floor="@);
    shorter_front(p18, p13, nat_text(cal_resp_at(p).dyn_range as nat));
    shorter_front(p18, p12, " dyn_range="@);
    shorter_front(p18, p11, nat_text(cal_resp_at(p).sat_score as nat));
    shorter_front(p18, p10, " sat_score="@);
    shorter_front(p18, p9, nat_text(cal_resp_at(p).csi_quality as nat));
    shorter_front(p18, p8, " dB csi_quality="@);
    shorter_front(p18, p7, int_text(cal_resp_at(p).snr as int));
    shorter_front(p18, p6, " dBm snr="@);
    shorter_front(p18, p5, int_text(cal_resp_at(p).rssi as int));
    shorter_front(p18, p4, " rssi="@);
    shorter_front(p18, p3, nat_text(cal_resp_at(p).result as nat));
    shorter_front(p18, p2, " result="@);
    shorter_front(p18, p1, nat_text(cal_resp_at(p).stage as nat));
    assert(p0 + "  payload: CalResp stage="@ =~= p1);
    assert((p0 + "  payload: CalResp stage="@ + nat_text(r.stage as nat) + " result="@).is_prefix_of(p18));
    assert((p2 + " result="@ + nat_text(r.result as nat) + " rssi="@).is_prefix_of(p18));
    assert((p4 + " rssi="@ + int_text(r.rssi as int) + " dBm snr="@).is_prefix_of(p18));
    assert((p6 + " dBm snr="@ + int_text(r.snr as int) + " dB csi_quality="@).is_prefix_of(p18));
    assert((p8 + " dB csi_quality="@ + nat_text(r.csi_quality as nat) + " sat_score="@).is_prefix_of(p18));
    assert((p10 + " sat_score="@ + nat_text(r.sat_score as nat) + " dyn_range="@).is_prefix_of(p18));
    assert((p12 + " dyn_range="@ + nat_text(r.dyn_range as nat) + " noise_floor="@).is_prefix_of(p18));
    assert((p14 + " noise_floor="@ + reals[0] + " n_samples="@).is_prefix_of(p18));
    assert((p16 + " n_samples="@ + nat_text(r.n_samples as nat)) == p18);
}

/// The text of a measurement shows each field under its name.
pub proof fn dump_data_names_its_values(d: DataPayload)
    ensures
        between(dump_data_text(data_bytes(d)), "  payload: DataPayload tx_power_db="@, nat_text(d.tx_power_db as nat), " flags=0x"@),
        between(dump_data_text(data_bytes(d)), " flags=0x"@, hex_text(d.flags as nat, 2), data_flag_text(d.flags)),
        at_the_end(dump_data_text(data_bytes(d)), hex_text(d.flags as nat, 2), data_flag_text(d.flags)),
{
    let p = data_bytes(d);
    let p0 = Seq::<char>::empty();
    let p1 = "  payload: DataPayload tx_power_db="@;
    let p2 = p1 + nat_text(p[0] as nat);
    let p3 = p2 + " flags=0x"@;
    let p4 = p3 + hex_text(p[1] as nat, 2);
    let p5 = p4 + data_flag_text(p[1]);
    assert(p5 == dump_data_text(data_bytes(d)));
    assert(p5.is_prefix_of(p5));
    shorter_front(p5, p4, data_flag_text(p[1]));
    shorter_front(p5, p3, hex_text(p[1] as nat, 2));
    shorter_front(p5, p2, " flags=0x"@);
    shorter_front(p5, p1, nat_text(p[0] as nat));
    assert(p0 + "  payload: DataPayload tx_power_db="@ =~= p1);
    assert((p0 + "  payload: DataPayload tx_power_db="@ + nat_text(d.tx_power_db as nat) + " flags=0x"@).is_prefix_of(p5));
    assert((p2 + " flags=0x"@ + hex_text(d.flags as nat, 2) + data_flag_text(d.flags)).is_prefix_of(p5));
    assert((p3 + hex_text(d.flags as nat, 2) + data_flag_text(d.flags)) == p5);
}

/// The text of a status shows each field under its name.
pub proof fn dump_status_names_its_values(p: Seq<u8>)
    ensures
        between(dump_status_text(p), "  payload: Status uptime_s="@, nat_text(status_at(p).uptime_s as nat), " tx_seq="@),
        between(dump_status_text(p), " tx_seq="@, nat_text(status_at(p).tx_seq as nat), " rx_packets="@),
        between(dump_status_text(p), " rx_packets="@, nat_text(status_at(p).rx_packets as nat), " rx_drops="@),
        between(dump_status_text(p), " rx_drops="@, nat_text(status_at(p).rx_drops as nat), " heap_free="@),
        between(dump_status_text(p), " heap_free="@, nat_text(status_at(p).heap_free as nat), " wifi_connected="@),
        between(dump_status_text(p), " wifi_connected="@, nat_text(status_at(p).wifi_connected as nat), " csi_enabled="@),
        between(dump_status_text(p), " csi_enabled="@, nat_text(status_at(p).csi_enabled as nat), " paired_frames_per_s="@),
        at_the_end(dump_status_text(p), " paired_frames_per_s="@, nat_text(status_at(p).paired_frames_per_s as nat)),
{
    let p0 = Seq::<char>::empty();
    let p1 = "  payload: Status uptime_s="@;
    let p2 = p1 + nat_text(status_at(p).uptime_s as nat);
    let p3 = p2 + " tx_seq="@;
    let p4 = p3 + nat_text(status_at(p).tx_seq as nat);
    let p5 = p4 + " rx_packets="@;
    let p6 = p5 + nat_text(status_at(p).rx_packets as nat);
    let p7 = p6 + " rx_drops="@;
    let p8 = p7 + nat_text(status_at(p).rx_drops as nat);
    let p9 = p8 + " heap_free="@;
    let p10 = p9 + nat_text(status_at(p).heap_free as nat);
    let p11 = p10 + " wifi_connected="@;
    let p12 = p11 + nat_text(status_at(p).wifi_connected as nat);
    let p13 = p12 + " csi_enabled="@;
    let p14 = p13 + nat_text(status_at(p).csi_enabled as nat);
    let p15 = p14 + " paired_frames_per_s="@;
    let p16 = p15 + nat_text(status_at(p).paired_frames_per_s as nat);
    assert(p16 == dump_status_text(p));
    assert(p16.is_prefix_of(p16));
    shorter_front(p16, p15, nat_text(status_at(p).paired_frames_per_s as nat));
    shorter_front(p16, p14, " paired_frames_per_s="@);
    shorter_front(p16, p13, nat_text(status_at(p).csi_enabled as nat));
    shorter_front(p16, p12, " csi_enabled="@);
    shorter_front(p16, p11, nat_text(status_at(p).wifi_connected as nat));
    shorter_front(p16, p10, " wifi_connected="@);
    shorter_front(p16, p9, nat_text(status_at(p).heap_free as nat));
    shorter_front(p16, p8, " heap_free="@);
    shorter_front(p16, p7, nat_text(status_at(p).rx_drops as nat));
    shorter_front(p16, p6, " rx_drops="@);
    shorter_front(p16, p5, nat_text(status_at(p).rx_packets as nat));
    shorter_front(p16, p4, " rx_packets="@);
    shorter_front(p16, p3, nat_text(status_at(p).tx_seq as nat));
    shorter_front(p16, p2, " tx_seq="@);
    shorter_front(p16, p1, nat_text(status_at(p).uptime_s as nat));
    assert(p0 + "  payload: Status uptime_s="@ =~= p1);
    assert((p0 + "  payload: Status uptime_s="@ + nat_text(status_at(p).uptime_s as nat) + " tx_seq="@).is_prefix_of(p16));
    assert((p2 + " tx_seq="@ + nat_text(status_at(p).tx_seq as nat) + " rx_packets="@).is_prefix_of(p16));
    assert((p4 + " rx_packets="@ + nat_text(status_at(p).rx_packets as nat) + " rx_drops="@).is_prefix_of(p16));
    assert((p6 + " rx_drops="@ + nat_text(status_at(p).rx_drops as nat) + " heap_free="@).is_prefix_of(p16));
    assert((p8 + " heap_free="@ + nat_text(status_at(p).heap_free as nat) + " wifi_connected="@).is_prefix_of(p16));
    assert((p10 + " wifi_connected="@ + nat_text(status_at(p).wifi_connected as nat) + " csi_enabled="@).is_prefix_of(p16));
    assert((p12 + " csi_enabled="@ + nat_text(status_at(p).csi_enabled as nat) + " paired_frames_per_s="@).is_prefix_of(p16));
    assert((p14 + " paired_frames_per_s="@ + nat_text(status_at(p).paired_frames_per_s as nat)) == p16);
}

/// The text of a bad frame shows each header field under its name.
pub proof fn text_bad_names_its_values(offset: int, h: Header, reason: BadReason)
    ensures
        between(text_bad_text(offset, h, reason), "BAD FRAME at offset "@, nat_text(offset as nat), ": kind="@),
        between(text_bad_text(offset, h, reason), ": kind="@, kind_text(h.kind), " src="@),
        between(text_bad_text(offset, h, reason), " src="@, node_text(h.src_node), " dst="@),
        between(text_bad_text(offset, h, reason), " dst="@, node_text(h.dst_node), " seq="@),
        between(text_bad_text(offset, h, reason), " seq="@, nat_text(h.seq as nat), " t_us="@),
        between(text_bad_text(offset, h, reason), " t_us="@, nat_text(h.t_us as nat), " claimed_len="@),
        between(text_bad_text(offset, h, reason), " claimed_len="@, nat_text(h.payload_len as nat), " ("@),
        between(text_bad_text(offset, h, reason), " ("@, reason_text(reason), ")"@),
{
    let p0 = Seq::<char>::empty();
    let p1 = "BAD FRAME at offset "@;
    let p2 = p1 + nat_text(offset as nat);
    let p3 = p2 + ": kind="@;
    let p4 = p3 + kind_text(h.kind);
    let p5 = p4 + " src="@;
    let p6 = p5 + node_text(h.src_node);
    let p7 = p6 + " dst="@;
    let p8 = p7 + node_text(h.dst_node);
    let p9 = p8 + " seq="@;
    let p10 = p9 + nat_text(h.seq as nat);
    let p11 = p10 + " t_us="@;
    let p12 = p11 + nat_text(h.t_us as nat);
    let p13 = p12 + " claimed_len="@;
    let p14 = p13 + nat_text(h.payload_len as nat);
    let p15 = p14 + " ("@;
    let p16 = p15 + reason_text(reason);
    let p17 = p16 + ")"@;
    assert(p17 == text_bad_text(offset, h, reason));
    assert(p17.is_prefix_of(p17));
    shorter_front(p17, p16, ")"@);
    shorter_front(p17, p15, reason_text(reason));
    shorter_front(p17, p14, " ("@);
    shorter_front(p17, p13, nat_text(h.payload_len as nat));
    shorter_front(p17, p12, " claimed_len="@);
    shorter_front(p17, p11, nat_text(h.t_us as nat));
    shorter_front(p17, p10, " t_us="@);
    shorter_front(p17, p9, nat_text(h.seq as nat));
    shorter_front(p17, p8, " seq="@);
    shorter_front(p17, p7, node_text(h.dst_node));
    shorter_front(p17, p6, " dst="@);
    shorter_front(p17, p5, node_text(h.src_node));
    shorter_front(p17, p4, " src="@);
    shorter_front(p17, p3, kind_text(h.kind));
    shorter_front(p17, p2, ": kind="@);
    shorter_front(p17, p1, nat_text(offset as nat));
    assert(p0 + "BAD FRAME at offset "@ =~= p1);
    assert((p0 + "BAD FRAME at offset "@ + nat_text(offset as nat) + ": kind="@).is_prefix_of(p17));
    assert((p2 + ": kind="@ + kind_text(h.kind) + " src="@).is_prefix_of(p17));
    assert((p4 + " src="@ + node_text(h.src_node) + " dst="@).is_prefix_of(p17));
    assert((p6 + " dst="@ + node_text(h.dst_node) + " seq="@).is_prefix_of(p17));
    assert((p8 + " seq="@ + nat_text(h.seq as nat) + " t_us="@).is_prefix_of(p17));
    assert((p10 + " t_us="@ + nat_text(h.t_us as nat) + " claimed_len="@).is_prefix_of(p17));
    assert((p12 + " claimed_len="@ + nat_text(h.payload_len as nat) + " ("@).is_prefix_of(p17));
    assert((p14 + " ("@ + reason_text(reason) + ")"@).is_prefix_of(p17));
}

/// The text of a frame shows each header field under its name.
pub proof fn text_frame_names_its_values(idx: u64, offset: int, h: Header, p: Seq<u8>, reals: Seq<Seq<char>>)
    ensures
        between(text_frame_text(idx, offset, h, p, reals), "FRAME #"@, nat_text(idx as nat), " offset="@),
        between(text_frame_text(idx, offset, h, p, reals), " offset="@, nat_text(offset as nat), " magic=0x"@),
        between(text_frame_text(idx, offset, h, p, reals), " magic=0x"@, hex_text(h.magic as nat, 8), " version="@),
        between(text_frame_text(idx, offset, h, p, reals), " version="@, nat_text(h.version as nat), " kind="@),
        between(text_frame_text(idx, offset, h, p, reals), " kind="@, kind_text(h.kind), " src="@),
        between(text_frame_text(idx, offset, h, p, reals), " src="@, node_text(h.src_node), " dst="@),
        between(text_frame_text(idx, offset, h, p, reals), " dst="@, node_text(h.dst_node), " seq="@),
        between(text_frame_text(idx, offset, h, p, reals), " seq="@, nat_text(h.seq as nat), " t_us="@),
        between(text_frame_text(idx, offset, h, p, reals), " t_us="@, nat_text(h.t_us as nat), " payload_len="@),
        between(text_frame_text(idx, offset, h, p, reals), " payload_len="@, nat_text(h.payload_len as nat), " crc16=0x"@),
        between(text_frame_text(idx, offset, h, p, reals), " crc16=0x"@, hex_text(h.crc16 as nat, 4), " CRC=OK\n"@),
        at_the_end(text_frame_text(idx, offset, h, p, reals), " CRC=OK\n"@, dump_payload_text(h.kind, p, reals)),
{
    let p0 = Seq::<char>::empty();
    let p1 = "FRAME #"@;
    let p2 = p1 + nat_text(idx as nat);
    let p3 = p2 + " offset="@;
    let p4 = p3 + nat_text(offset as nat);
    let p5 = p4 + " magic=0x"@;
    let p6 = p5 + hex_text(h.magic as nat, 8);
    let p7 = p6 + " version="@;
    let p8 = p7 + nat_text(h.version as nat);
    let p9 = p8 + " kind="@;
    let p10 = p9 + kind_text(h.kind);
    let p11 = p10 + " src="@;
    let p12 = p11 + node_text(h.src_node);
    let p13 = p12 + " dst="@;
    let p14 = p13 + node_text(h.dst_node);
    let p15 = p14 + " seq="@;
    let p16 = p15 + nat_text(h.seq as nat);
    let p17 = p16 + " t_us="@;
    let p18 = p17 + nat_text(h.t_us as nat);
    let p19 = p18 + " payload_len="@;
    let p20 = p19 + nat_text(h.payload_len as nat);
    let p21 = p20 + " crc16=0x"@;
    let p22 = p21 + hex_text(h.crc16 as nat, 4);
    let p23 = p22 + " CRC=OK\n"@;
    let p24 = p23 + dump_payload_text(h.kind, p, reals);
    assert(p24 == text_frame_text(idx, offset, h, p, reals));
    assert(p24.is_prefix_of(p24));
    shorter_front(p24, p23, dump_payload_text(h.kind, p, reals));
    shorter_front(p24, p22, " CRC=OK\n"@);
    shorter_front(p24, p21, hex_text(h.crc16 as nat, 4));
    shorter_front(p24, p20, " crc16=0x"@);
    shorter_front(p24, p19, nat_text(h.payload_len as nat));
    shorter_front(p24, p18, " payload_len="@);
    shorter_front(p24, p17, nat_text(h.t_us as nat));
    shorter_front(p24, p16, " t_us="@);
    shorter_front(p24, p15, nat_text(h.seq as nat));
    shorter_front(p24, p14, " seq="@);
    shorter_front(p24, p13, node_text(h.dst_node));
    shorter_front(p24, p12, " dst="@);
    shorter_front(p24, p11, node_text(h.src_node));
    shorter_front(p24, p10, " src="@);
    shorter_front(p24, p9, kind_text(h.kind));
    shorter_front(p24, p8, " kind="@);
    shorter_front(p24, p7, nat_text(h.version as nat));
    shorter_front(p24, p6, " version="@);
    shorter_front(p24, p5, hex_text(h.magic as nat, 8));
    shorter_front(p24, p4, " magic=0x"@);
    shorter_front(p24, p3, nat_text(offset as nat));
    shorter_front(p24, p2, " offset="@);
    shorter_front(p24, p1, nat_text(idx as nat));
    assert(p0 + "FRAME #"@ =~= p1);
    assert((p0 + "FRAME #"@ + nat_text(idx as nat) + " offset="@).is_prefix_of(p24));
    assert((p2 + " offset="@ + nat_text(offset as nat) + " magic=0x"@).is_prefix_of(p24));
    assert((p4 + " magic=0x"@ + hex_text(h.magic as nat, 8) + " version="@).is_prefix_of(p24));
    assert((p6 + " version="@ + nat_text(h.version as nat) + " kind="@).is_prefix_of(p24));
    assert((p8 + " kind="@ + kind_text(h.kind) + " src="@).is_prefix_of(p24));
    assert((p10 + " src="@ + node_text(h.src_node) + " dst="@).is_prefix_of(p24));
    assert((p12 + " dst="@ + node_text(h.dst_node) + " seq="@).is_prefix_of(p24));
    assert((p14 + " seq="@ + nat_text(h.seq as nat) + " t_us="@).is_prefix_of(p24));
    assert((p16 + " t_us="@ + nat_text(h.t_us as nat) + " payload_len="@).is_prefix_of(p24));
    assert((p18 + " payload_len="@ + nat_text(h.payload_len as nat) + " crc16=0x"@).is_prefix_of(p24));
    assert((p20 + " crc16=0x"@ + hex_text(h.crc16 as nat, 4) + " CRC=OK\n"@).is_prefix_of(p24));
    assert((p22 + " CRC=OK\n"@ + dump_payload_text(h.kind, p, reals)) == p24);
}

/// The reals of a report are listed in the order of their names.
pub proof fn json_reals_are_listed_by_name(r: FeatureReport)
    ensures
        json_reals_of(frame_type::FEATURE_REPORT, feature_report_bytes(r)) == seq![
            Real::Shortest(r.amp_mean),
            Real::Shortest(r.amp_std),
            Real::Shortest(r.motion_energy),
            Real::Shortest(r.spectral_entropy),
            Real::Shortest(r.dominant_freq_hz),
            Real::Shortest(r.phase_dispersion),
            Real::Shortest(r.baseline_dev),
        ] + r.pca_scores@.map_values(|v: u32| Real::Shortest(v)),
{
    feature_report_layout(r);
    feature_report_round_trip(r, Seq::empty());
    let p = feature_report_bytes(r);
    let a = json_reals_of(frame_type::FEATURE_REPORT, p);
    let head = seq![
            Real::Shortest(r.amp_mean),
            Real::Shortest(r.amp_std),
            Real::Shortest(r.motion_energy),
            Real::Shortest(r.spectral_entropy),
            Real::Shortest(r.dominant_freq_hz),
            Real::Shortest(r.phase_dispersion),
            Real::Shortest(r.baseline_dev),
        ];
    let b = head + r.pca_scores@.map_values(|v: u32| Real::Shortest(v));
    assert(a.len() == 15 && b.len() == 15);
    assert forall|i: int| 0 <= i < 15 implies a[i] == b[i] by {
        assert(a[i] == Real::Shortest(u32_at(p, 19 + 4 * i)));
        if i >= 7 {
            assert(u32_at(p, 47 + 4 * (i - 7)) == r.pca_scores@[i - 7]);
            assert(b[i] == Real::Shortest(r.pca_scores@[i - 7]));
        } else {
            assert(b[i] == head[i]);
        }
    }
    assert(a =~= b);
}

/// The reals of a report are listed in the order of their names.
pub proof fn text_reals_are_listed_by_name(r: FeatureReport)
    ensures
        text_reals_of(frame_type::FEATURE_REPORT, feature_report_bytes(r)) == seq![
            Real::Fixed3(r.amp_mean),
            Real::Fixed3(r.amp_std),
            Real::Fixed3(r.motion_energy),
            Real::Fixed3(r.spectral_entropy),
            Real::Fixed3(r.dominant_freq_hz),
            Real::Fixed3(r.phase_dispersion),
            Real::Fixed3(r.baseline_dev),
        ] + r.pca_scores@.map_values(|v: u32| Real::Fixed3(v)),
{
    feature_report_layout(r);
    feature_report_round_trip(r, Seq::empty());
    let p = feature_report_bytes(r);
    let a = text_reals_of(frame_type::FEATURE_REPORT, p);
    let head = seq![
            Real::Fixed3(r.amp_mean),
            Real::Fixed3(r.amp_std),
            Real::Fixed3(r.motion_energy),
            Real::Fixed3(r.spectral_entropy),
            Real::Fixed3(r.dominant_freq_hz),
            Real::Fixed3(r.phase_dispersion),
            Real::Fixed3(r.baseline_dev),
        ];
    let b = head + r.pca_scores@.map_values(|v: u32| Real::Fixed3(v));
    assert(a.len() == 15 && b.len() == 15);
    assert forall|i: int| 0 <= i < 15 implies a[i] == b[i] by {
        assert(a[i] == Real::Fixed3(u32_at(p, 19 + 4 * i)));
        if i >= 7 {
            assert(u32_at(p, 47 + 4 * (i - 7)) == r.pca_scores@[i - 7]);
            assert(b[i] == Real::Fixed3(r.pca_scores@[i - 7]));
        } else {
            assert(b[i] == head[i]);
        }
    }
    assert(a =~= b);
}

/// The reals of a snapshot are its noise floor and the means over its active
/// subcarriers and its spectrum.
pub proof fn snapshot_reals_are_listed_by_name(s: CsiSnapshot)
    ensures
        ({
            let amp = leading(s.amp_norm@, s.n_sub as int);
            let iq = leading(s.iq@, 2 * s.n_sub);
            let (a, b) = (
                json_reals_of(frame_type::CSI_SNAPSHOT, csi_snapshot_bytes(s)),
                text_reals_of(frame_type::CSI_SNAPSHOT, csi_snapshot_bytes(s)),
            );
            &&& a.len() == 3 && b.len() == 4
            &&& a[0] == Real::Shortest(s.noise_floor) && b[0] == Real::Fixed1(s.noise_floor)
            &&& a[1] == (Real::Mean1 { sum: sum_u8(amp) as u64, count: amp.len() as u64 })
            &&& b[1] == a[1]
            &&& b[2] == (Real::Mean1 { sum: sum_abs(iq) as u64, count: iq.len() as u64 })
            &&& a[2] == (Real::Mean1 { sum: sum_u8(s.spec@) as u64, count: 64 })
            &&& b[3] == a[2]
        }),
{
    csi_snapshot_layout(s);
    csi_snapshot_round_trip(s, Seq::empty());
    assert(i16s_at(csi_snapshot_bytes(s), 15, 112) =~= s.iq@);
}

} // verus!
