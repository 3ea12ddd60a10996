use fleet_sizer::plan::{reconcile, Plan};

#[test]
fn more_wanted_than_managed_scales_up() {
    assert_eq!(reconcile(5, 2), Plan::ScaleUp(3));
}

#[test]
fn fewer_wanted_than_managed_scales_down() {
    assert_eq!(reconcile(2, 5), Plan::ScaleDown(3));
}

#[test]
fn equal_counts_need_nothing() {
    assert_eq!(reconcile(3, 3), Plan::NoOp);
    assert_eq!(reconcile(0, 0), Plan::NoOp);
}

#[test]
fn empty_fleet_scales_up_to_the_wanted_count() {
    assert_eq!(reconcile(1, 0), Plan::ScaleUp(1));
    assert_eq!(reconcile(65535, 0), Plan::ScaleUp(65535));
}

#[test]
fn zero_wanted_scales_the_whole_fleet_down() {
    assert_eq!(reconcile(0, 4), Plan::ScaleDown(4));
}

#[test]
fn counts_beyond_sixteen_bits_are_not_wrapped() {
    assert_eq!(reconcile(40000, 100), Plan::ScaleUp(39900));
    assert_eq!(reconcile(100, 40000), Plan::ScaleDown(39900));
    assert_eq!(reconcile(65535, 70000), Plan::ScaleDown(4465));
    assert_eq!(reconcile(65535, 65535), Plan::NoOp);
}

#[test]
fn plan_follows_the_sign_of_the_difference() {
    for desired in 0u16..12 {
        for managed in 0usize..12 {
            let plan = reconcile(desired, managed);
            let wanted = desired as usize;
            if wanted > managed {
                assert_eq!(plan, Plan::ScaleUp(wanted - managed));
            } else if wanted < managed {
                assert_eq!(plan, Plan::ScaleDown(managed - wanted));
            } else {
                assert_eq!(plan, Plan::NoOp);
            }
        }
    }
}
